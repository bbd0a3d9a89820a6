//! What holds of every chain, proved from the definitions that the
//! contracts of the ledger are stated in.

use vstd::prelude::*;
use crate::block::{no_previous_hash, BlockView};
use crate::chain::{
    difficulty_in_range, difficulty_outcome, initial_chain, intact, mining_outcome, reward_outcome,
    submission_outcome, ChainView,
};
use crate::digest::meets_difficulty;
use crate::encoding::block_digest;
use crate::transaction::TransactionView;

verus! {

/// A new chain holds exactly one block: index 0, no transactions, proof 0,
/// a predecessor hash of zeros, and as its hash the digest of these and of
/// the time of its creation. It satisfies the invariant.
pub proof fn lemma_new_chain_holds_genesis(miner_address: Seq<char>, difficulty: u32, timestamp: i64)
    requires
        difficulty_in_range(difficulty),
    ensures
        initial_chain(miner_address, difficulty, timestamp).wf(),
        initial_chain(miner_address, difficulty, timestamp).blocks.len() == 1,
        initial_chain(miner_address, difficulty, timestamp).blocks[0].index == 0,
        initial_chain(miner_address, difficulty, timestamp).blocks[0].proof == 0,
        initial_chain(miner_address, difficulty, timestamp).blocks[0].transactions
            == Seq::<TransactionView>::empty(),
        initial_chain(miner_address, difficulty, timestamp).blocks[0].previous_hash
            == no_previous_hash(),
        initial_chain(miner_address, difficulty, timestamp).blocks[0].hash == block_digest(
            0,
            timestamp,
            Seq::empty(),
            no_previous_hash(),
            0,
        ),
        initial_chain(miner_address, difficulty, timestamp).pending_transactions.len() == 0,
{
}

/// In a chain that satisfies the invariant, every block after the first
/// names the hash of the block before it, and every block's index is its
/// position.
pub proof fn lemma_blocks_are_linked(chain: ChainView, i: int)
    requires
        chain.wf(),
        0 < i < chain.blocks.len(),
    ensures
        chain.blocks[i].previous_hash == chain.blocks[i - 1].hash,
        chain.blocks[i].index == i,
        chain.blocks[0].index == 0,
{
    assert(crate::chain::follows(chain.blocks, i));
}

/// In a chain that satisfies the invariant, the digest of the stored fields
/// of every block after the first starts with as many zero digits as the
/// difficulty that the block records, which is at least one.
pub proof fn lemma_blocks_are_proven(chain: ChainView, i: int)
    requires
        chain.wf(),
        0 < i < chain.blocks.len(),
    ensures
        chain.blocks[i].difficulty >= 1,
        meets_difficulty(
            block_digest(
                chain.blocks[i].index,
                chain.blocks[i].timestamp,
                chain.blocks[i].transactions,
                chain.blocks[i].previous_hash,
                chain.blocks[i].proof,
            ),
            chain.blocks[i].difficulty as nat,
        ),
{
    assert(crate::chain::follows(chain.blocks, i));
}

/// Submitting a transaction keeps the invariant and leaves the sealed
/// blocks as they were.
pub proof fn lemma_submission_keeps_invariant(
    pre: ChainView,
    candidate: TransactionView,
    post: ChainView,
    accepted: bool,
)
    requires
        pre.wf(),
        submission_outcome(pre, candidate, post, accepted),
    ensures
        post.wf(),
        post.blocks == pre.blocks,
{
}

/// Mining keeps the invariant. It changes no sealed block, and the block
/// that it appends records the difficulty that the chain had when it was
/// mined. (The bound on the length says that the new block's index can be
/// represented.)
pub proof fn lemma_mining_keeps_invariant(
    pre: ChainView,
    timestamp: i64,
    post: ChainView,
    sealed: bool,
)
    requires
        pre.wf(),
        pre.blocks.len() <= u64::MAX,
        mining_outcome(pre, timestamp, post, sealed),
    ensures
        post.wf(),
        post.blocks.take(pre.blocks.len() as int) == pre.blocks,
        sealed ==> post.blocks.len() == pre.blocks.len() + 1,
        sealed ==> post.blocks.last().difficulty == pre.difficulty,
        sealed ==> post.pending_transactions.len() == 0,
        !sealed ==> post == pre,
{
    if sealed {
        let proof = post.blocks.last().proof;
        let appended = pre.next_block(timestamp, proof);
        assert(post.blocks == pre.blocks.push(appended));
        assert(post.blocks.take(pre.blocks.len() as int) =~= pre.blocks);
        assert forall|i: int| 1 <= i < post.blocks.len() implies #[trigger] crate::chain::follows(
            post.blocks,
            i,
        ) by {
            if i < pre.blocks.len() {
                assert(crate::chain::follows(pre.blocks, i));
            }
        }
    } else {
        assert(post.blocks.take(pre.blocks.len() as int) =~= pre.blocks);
    }
}

/// Setting the difficulty or the reward keeps the invariant and leaves the
/// sealed blocks and the pool as they were.
pub proof fn lemma_tuning_keeps_invariant(
    pre: ChainView,
    new_difficulty: u32,
    new_reward: i64,
    post: ChainView,
    accepted: bool,
)
    requires
        pre.wf(),
        difficulty_outcome(pre, new_difficulty, post, accepted) || reward_outcome(
            pre,
            new_reward,
            post,
            accepted,
        ),
    ensures
        post.wf(),
        post.blocks == pre.blocks,
        post.pending_transactions == pre.pending_transactions,
{
}

/// One call on a chain: what was asked of it.
pub enum Operation {
    /// A transaction was submitted.
    Submit { candidate: TransactionView },
    /// A block was mined at a time.
    Mine { timestamp: i64 },
    /// A difficulty was set.
    SetDifficulty { difficulty: u32 },
    /// A reward was set.
    SetReward { reward: i64 },
}

/// `post` is a state in which `operation` may leave a chain that was in
/// the state `pre`.
pub open spec fn transition(pre: ChainView, operation: Operation, post: ChainView) -> bool {
    match operation {
        Operation::Submit { candidate } => exists|accepted: bool|
            submission_outcome(pre, candidate, post, accepted),
        Operation::Mine { timestamp } => exists|sealed: bool|
            mining_outcome(pre, timestamp, post, sealed),
        Operation::SetDifficulty { difficulty } => exists|accepted: bool|
            difficulty_outcome(pre, difficulty, post, accepted),
        Operation::SetReward { reward } => exists|accepted: bool|
            reward_outcome(pre, reward, post, accepted),
    }
}

/// `states` are the states that a chain goes through under `operations`,
/// one after the other: the first is where it starts, and each operation
/// leads from one state to the next.
pub open spec fn history(states: Seq<ChainView>, operations: Seq<Operation>) -> bool {
    &&& states.len() == operations.len() + 1
    &&& forall|i: int|
        0 <= i < operations.len() ==> #[trigger] transition(states[i], operations[i], states[i + 1])
}

/// Whatever is asked of a chain that starts from a state that satisfies the
/// invariant, in whatever order, every state that it goes through satisfies
/// the invariant, and holds the blocks of the first state unchanged at the
/// start of its own. (The bound on the lengths says that every block's
/// index can be represented.)
pub proof fn lemma_every_state_keeps_invariant(
    states: Seq<ChainView>,
    operations: Seq<Operation>,
    k: int,
)
    requires
        history(states, operations),
        states[0].wf(),
        forall|i: int| 0 <= i < states.len() ==> (#[trigger] states[i]).blocks.len() <= u64::MAX,
        0 <= k < states.len(),
    ensures
        states[k].wf(),
        states[0].blocks.len() <= states[k].blocks.len(),
        states[k].blocks.take(states[0].blocks.len() as int) == states[0].blocks,
    decreases k,
{
    if k == 0 {
        assert(states[0].blocks.take(states[0].blocks.len() as int) =~= states[0].blocks);
    } else {
        lemma_every_state_keeps_invariant(states, operations, k - 1);
        let pre = states[k - 1];
        let post = states[k];
        let i = k - 1;
        assert(transition(states[i], operations[i], states[i + 1]));
        match operations[k - 1] {
            Operation::Submit { candidate } => {
                let accepted = choose|accepted: bool|
                    submission_outcome(pre, candidate, post, accepted);
                lemma_submission_keeps_invariant(pre, candidate, post, accepted);
            },
            Operation::Mine { timestamp } => {
                let sealed = choose|sealed: bool| mining_outcome(pre, timestamp, post, sealed);
                lemma_mining_keeps_invariant(pre, timestamp, post, sealed);
                assert(post.blocks.take(states[0].blocks.len() as int) =~= post.blocks.take(
                    pre.blocks.len() as int,
                ).take(states[0].blocks.len() as int));
            },
            Operation::SetDifficulty { difficulty } => {
                let accepted = choose|accepted: bool|
                    difficulty_outcome(pre, difficulty, post, accepted);
                lemma_tuning_keeps_invariant(pre, difficulty, 0, post, accepted);
            },
            Operation::SetReward { reward } => {
                let accepted = choose|accepted: bool| reward_outcome(pre, reward, post, accepted);
                lemma_tuning_keeps_invariant(pre, 0, reward, post, accepted);
            },
        }
    }
}

/// The digest of a block is a function of its index, timestamp,
/// transactions, predecessor hash and proof: two blocks that agree on these
/// have the same digest, whatever else they hold.
pub proof fn lemma_digest_is_determined(a: BlockView, b: BlockView)
    requires
        a.index == b.index,
        a.timestamp == b.timestamp,
        a.transactions == b.transactions,
        a.previous_hash == b.previous_hash,
        a.proof == b.proof,
    ensures
        a.digest() == b.digest(),
        a.hash == b.hash ==> a.sealed() == b.sealed(),
{
}

/// Two verdicts on the same blocks agree: what re-verification answers is
/// a function of the blocks alone.
pub proof fn lemma_verification_is_repeatable(blocks: Seq<BlockView>, first: bool, second: bool)
    requires
        first == intact(blocks),
        second == intact(blocks),
    ensures
        first == second,
{
}

/// A chain that satisfies the invariant passes re-verification.
pub proof fn lemma_wellformed_chain_is_intact(chain: ChainView)
    requires
        chain.wf(),
    ensures
        intact(chain.blocks),
{
}

} // verus!
