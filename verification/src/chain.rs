//! The ledger: sealed blocks, the pool of pending transactions, and the
//! parameters of mining.

use vstd::prelude::*;
use vstd::string::*;
use crate::block::{
    block_views, candidate_hash, clears, genesis_view, least_proof, same_bytes, Block, BlockView,
};
use crate::clock::unix_time;
use crate::encoding::block_prefix;
use crate::transaction::{views_of, Transaction, TransactionView};

verus! {

/// The largest difficulty that a chain accepts. A hash has 64 hexadecimal
/// digits, and a 64-bit proof can be expected to clear at most 16 of them.
pub const MAX_DIFFICULTY: u32 = 16;

/// The reward that a new chain credits for each mined block.
pub const INITIAL_REWARD: i64 = 100;

/// The sender named in reward transactions.
pub open spec fn network() -> Seq<char> {
    "network"@
}

/// `difficulty` is one that a chain accepts.
pub open spec fn difficulty_in_range(difficulty: u32) -> bool {
    1 <= difficulty <= MAX_DIFFICULTY
}

/// The transaction that credits `reward` to `miner_address`.
pub open spec fn reward_transaction(miner_address: Seq<char>, reward: i64) -> TransactionView {
    TransactionView { sender: network(), receiver: miner_address, amount: reward }
}

/// Block `i` names the hash of block `i - 1` as its predecessor, its hash
/// is the digest of its own fields, and that hash clears the difficulty
/// that the block records.
pub open spec fn follows(blocks: Seq<BlockView>, i: int) -> bool {
    &&& blocks[i].previous_hash == blocks[i - 1].hash
    &&& blocks[i].sealed()
    &&& blocks[i].proven()
}

/// Every block after the first follows its predecessor.
pub open spec fn intact(blocks: Seq<BlockView>) -> bool {
    forall|i: int| 1 <= i < blocks.len() ==> #[trigger] follows(blocks, i)
}

/// Every block's index is its position.
pub open spec fn numbered(blocks: Seq<BlockView>) -> bool {
    forall|i: int| 0 <= i < blocks.len() ==> (#[trigger] blocks[i]).index == i
}

/// What a chain holds, as plain values.
pub struct ChainView {
    pub blocks: Seq<BlockView>,
    pub pending_transactions: Seq<TransactionView>,
    pub difficulty: u32,
    pub miner_address: Seq<char>,
    pub reward: i64,
}

impl ChainView {
    /// The invariant of a chain: it starts with a genesis block, its blocks
    /// are numbered and intact, and its parameters are within bounds.
    pub open spec fn wf(self) -> bool {
        &&& self.blocks.len() >= 1
        &&& self.blocks[0] == genesis_view(self.blocks[0].timestamp)
        &&& numbered(self.blocks)
        &&& intact(self.blocks)
        &&& difficulty_in_range(self.difficulty)
        &&& self.reward >= 0
    }

    /// The transactions of the next block: the reward, then the pool.
    pub open spec fn next_transactions(self) -> Seq<TransactionView> {
        seq![reward_transaction(self.miner_address, self.reward)] + self.pending_transactions
    }

    /// What is hashed of the next block, but for its proof, when it is
    /// mined at `timestamp`.
    pub open spec fn next_prefix(self, timestamp: i64) -> Seq<u8> {
        block_prefix(
            self.blocks.len() as u64,
            timestamp,
            self.next_transactions(),
            self.blocks.last().hash,
        )
    }

    /// The block that mining at `timestamp` appends when it finds `proof`.
    pub open spec fn next_block(self, timestamp: i64, proof: u64) -> BlockView {
        BlockView {
            index: self.blocks.len() as u64,
            timestamp,
            transactions: self.next_transactions(),
            proof,
            previous_hash: self.blocks.last().hash,
            hash: candidate_hash(self.next_prefix(timestamp), proof),
            difficulty: self.difficulty,
        }
    }
}

/// The chain that `miner_address` starts at `timestamp`: a genesis block, an
/// empty pool, and the initial reward.
pub open spec fn initial_chain(miner_address: Seq<char>, difficulty: u32, timestamp: i64) -> ChainView {
    ChainView {
        blocks: seq![genesis_view(timestamp)],
        pending_transactions: Seq::empty(),
        difficulty,
        miner_address,
        reward: INITIAL_REWARD,
    }
}

/// How submitting `candidate` turns `pre` into `post`: an admissible
/// transaction joins the end of the pool, any other changes nothing.
pub open spec fn submission_outcome(
    pre: ChainView,
    candidate: TransactionView,
    post: ChainView,
    accepted: bool,
) -> bool {
    &&& accepted == candidate.admissible()
    &&& post == if accepted {
        ChainView { pending_transactions: pre.pending_transactions.push(candidate), ..pre }
    } else {
        pre
    }
}

/// How mining at `timestamp` turns `pre` into `post`. Where some 64-bit
/// proof clears the chain's difficulty, the block sealed by the least such
/// proof is appended and the pool is emptied; otherwise nothing changes.
pub open spec fn mining_outcome(pre: ChainView, timestamp: i64, post: ChainView, sealed: bool) -> bool {
    let prefix = pre.next_prefix(timestamp);
    if sealed {
        let proof = post.blocks.last().proof;
        &&& least_proof(prefix, pre.difficulty, proof)
        &&& post == ChainView {
            blocks: pre.blocks.push(pre.next_block(timestamp, proof)),
            pending_transactions: Seq::empty(),
            ..pre
        }
    } else {
        &&& forall|q: u64| !#[trigger] clears(prefix, pre.difficulty, q)
        &&& post == pre
    }
}

/// How setting the difficulty to `new_difficulty` turns `pre` into `post`:
/// a value in range replaces the difficulty, any other changes nothing.
pub open spec fn difficulty_outcome(
    pre: ChainView,
    new_difficulty: u32,
    post: ChainView,
    accepted: bool,
) -> bool {
    &&& accepted == difficulty_in_range(new_difficulty)
    &&& post == if accepted {
        ChainView { difficulty: new_difficulty, ..pre }
    } else {
        pre
    }
}

/// How setting the reward to `new_reward` turns `pre` into `post`: a value
/// that is not negative replaces the reward, any other changes nothing.
pub open spec fn reward_outcome(pre: ChainView, new_reward: i64, post: ChainView, accepted: bool) -> bool {
    &&& accepted == (new_reward >= 0)
    &&& post == if accepted {
        ChainView { reward: new_reward, ..pre }
    } else {
        pre
    }
}

/// Re-verifies a sequence of blocks: each block after the first must name
/// its predecessor's hash, carry the digest of its own fields as its hash,
/// and clear the difficulty that it records.
pub fn verify_blocks(blocks: &Vec<Block>) -> (ok: bool)
    ensures
        ok == intact(block_views(blocks@)),
{
    let mut i: usize = 1;
    while i < blocks.len()
        invariant
            1 <= i,
            forall|j: int| 1 <= j < i && j < blocks@.len() ==> #[trigger] follows(block_views(blocks@), j),
        decreases blocks@.len() - i,
    {
        let block = &blocks[i];
        let linked = same_bytes(&block.previous_hash, &blocks[i - 1].hash);
        if !linked || !block.is_sealed() || !block.is_proven() {
            assert(!follows(block_views(blocks@), i as int));
            return false;
        }
        assert(follows(block_views(blocks@), i as int));
        i = i + 1;
    }
    true
}

/// A single-writer proof-of-work ledger. It lives in memory, and every
/// operation on it runs to its end before the next begins.
#[derive(Debug)]
pub struct Chain {
    blocks: Vec<Block>,
    pending_transactions: Vec<Transaction>,
    difficulty: u32,
    miner_address: String,
    reward: i64,
}

impl View for Chain {
    type V = ChainView;

    closed spec fn view(&self) -> ChainView {
        ChainView {
            blocks: block_views(self.blocks@),
            pending_transactions: views_of(self.pending_transactions@),
            difficulty: self.difficulty,
            miner_address: self.miner_address@,
            reward: self.reward,
        }
    }
}

impl Chain {
    /// The chain's invariant holds.
    pub open spec fn wf(&self) -> bool {
        self@.wf()
    }

    /// Starts a chain at the given time. Returns `None` where `difficulty`
    /// is out of range.
    pub fn new_at(miner_address: String, difficulty: u32, timestamp: i64) -> (chain: Option<Chain>)
        ensures
            chain is Some <==> difficulty_in_range(difficulty),
            chain matches Some(c) ==> {
                &&& c.wf()
                &&& c@ == initial_chain(miner_address@, difficulty, timestamp)
            },
    {
        if difficulty < 1 || difficulty > MAX_DIFFICULTY {
            return None;
        }
        let mut blocks: Vec<Block> = Vec::new();
        blocks.push(Block::genesis(timestamp));
        let chain = Chain {
            blocks,
            pending_transactions: Vec::new(),
            difficulty,
            miner_address,
            reward: INITIAL_REWARD,
        };
        proof {
            let expected = initial_chain(miner_address@, difficulty, timestamp);
            assert(chain@.blocks =~= expected.blocks);
            assert(chain@.pending_transactions =~= expected.pending_transactions);
        }
        Some(chain)
    }

    /// Starts a chain now. Returns `None` where `difficulty` is out of
    /// range.
    pub fn new(miner_address: String, difficulty: u32) -> (chain: Option<Chain>)
        ensures
            chain is Some <==> difficulty_in_range(difficulty),
            chain matches Some(c) ==> {
                &&& c.wf()
                &&& c@ == initial_chain(miner_address@, difficulty, c@.blocks[0].timestamp)
            },
    {
        Chain::new_at(miner_address, difficulty, unix_time())
    }

    /// The sealed blocks, genesis first.
    pub fn blocks(&self) -> (blocks: &Vec<Block>)
        ensures
            block_views(blocks@) == self@.blocks,
    {
        &self.blocks
    }

    /// The transactions that await sealing, in order of arrival.
    pub fn pending_transactions(&self) -> (pending: &Vec<Transaction>)
        ensures
            views_of(pending@) == self@.pending_transactions,
    {
        &self.pending_transactions
    }

    /// The number of leading zero digits asked of the next block's hash.
    pub fn difficulty(&self) -> (difficulty: u32)
        ensures
            difficulty == self@.difficulty,
    {
        self.difficulty
    }

    /// The address credited with mining rewards.
    pub fn miner_address(&self) -> (address: &String)
        ensures
            address@ == self@.miner_address,
    {
        &self.miner_address
    }

    /// The amount credited for the next mined block.
    pub fn reward(&self) -> (reward: i64)
        ensures
            reward == self@.reward,
    {
        self.reward
    }

    /// Offers a transaction to the pool. It is admitted, and appended to
    /// the pool, when both parties are named and the amount is positive.
    pub fn submit(&mut self, sender: String, receiver: String, amount: i64) -> (accepted: bool)
        requires
            old(self).wf(),
        ensures
            final(self).wf(),
            submission_outcome(
                old(self)@,
                TransactionView { sender: sender@, receiver: receiver@, amount },
                final(self)@,
                accepted,
            ),
    {
        let candidate = Transaction::new(sender, receiver, amount);
        if !candidate.is_admissible() {
            return false;
        }
        self.pending_transactions.push(candidate);
        proof {
            assert(self@.pending_transactions =~= old(self)@.pending_transactions.push(candidate@));
        }
        true
    }

    /// Mines a block at the given time: seals the reward transaction and
    /// the pool, in that order, into a block that follows the chain's tip.
    pub fn mine_at(&mut self, timestamp: i64) -> (sealed: bool)
        requires
            old(self).wf(),
        ensures
            final(self).wf(),
            mining_outcome(old(self)@, timestamp, final(self)@, sealed),
    {
        let index = self.blocks.len() as u64;
        let previous_hash = self.blocks[self.blocks.len() - 1].hash.clone();
        let reward = Transaction::new(
            String::from_str("network"),
            self.miner_address.clone(),
            self.reward,
        );
        let mut transactions: Vec<Transaction> = Vec::new();
        transactions.push(reward);
        transactions.append(&mut self.pending_transactions);
        proof {
            assert(block_views(self.blocks@).last() == self.blocks@.last()@);
            assert(views_of(transactions@) =~= old(self)@.next_transactions());
        }
        match Block::seal(index, timestamp, transactions, previous_hash, self.difficulty) {
            Ok(block) => {
                self.blocks.push(block);
                proof {
                    let pre = old(self)@;
                    let appended = pre.next_block(timestamp, block@.proof);
                    assert(block@ == appended);
                    assert(self@.blocks =~= pre.blocks.push(appended));
                    assert(self@.pending_transactions =~= Seq::empty());
                    assert(self@.blocks.last() == appended);
                    assert forall|i: int| 1 <= i < self@.blocks.len() implies #[trigger] follows(
                        self@.blocks,
                        i,
                    ) by {
                        if i < pre.blocks.len() {
                            assert(follows(pre.blocks, i));
                        }
                    }
                }
                true
            },
            Err(returned) => {
                let mut returned = returned;
                returned.remove(0);
                self.pending_transactions = returned;
                proof {
                    assert(self.pending_transactions@ =~= old(self).pending_transactions@);
                }
                false
            },
        }
    }

    /// Mines a block now. See [`Chain::mine_at`]; the time is read once,
    /// before the search begins.
    pub fn mine(&mut self) -> (sealed: bool)
        requires
            old(self).wf(),
        ensures
            final(self).wf(),
            exists|timestamp: i64| mining_outcome(old(self)@, timestamp, final(self)@, sealed),
    {
        let timestamp = unix_time();
        self.mine_at(timestamp)
    }

    /// Sets the difficulty of future blocks, where the new value is in
    /// range.
    pub fn set_difficulty(&mut self, new_difficulty: u32) -> (accepted: bool)
        requires
            old(self).wf(),
        ensures
            final(self).wf(),
            difficulty_outcome(old(self)@, new_difficulty, final(self)@, accepted),
    {
        if new_difficulty < 1 || new_difficulty > MAX_DIFFICULTY {
            return false;
        }
        self.difficulty = new_difficulty;
        true
    }

    /// Sets the reward of future blocks, where the new value is not
    /// negative.
    pub fn set_reward(&mut self, new_reward: i64) -> (accepted: bool)
        requires
            old(self).wf(),
        ensures
            final(self).wf(),
            reward_outcome(old(self)@, new_reward, final(self)@, accepted),
    {
        if new_reward < 0 {
            return false;
        }
        self.reward = new_reward;
        true
    }

    /// Re-verifies the sealed blocks. See [`verify_blocks`].
    pub fn verify(&self) -> (ok: bool)
        ensures
            ok == intact(self@.blocks),
            self.wf() ==> ok,
    {
        verify_blocks(&self.blocks)
    }
}

} // verus!
