//! Sealed batches of transactions, and the search that seals them.

use vstd::prelude::*;
use vstd::bytes::*;
use crate::digest::{has_leading_zeros, meets_difficulty, sha256, sha256_bytes, DIGEST_LEN};
use crate::encoding::{block_digest, block_prefix, encode_prefix, put_u64};
use crate::transaction::{views_of, Transaction, TransactionView};

verus! {

/// What a block holds, as plain values.
pub struct BlockView {
    pub index: u64,
    pub timestamp: i64,
    pub transactions: Seq<TransactionView>,
    pub proof: u64,
    pub previous_hash: Seq<u8>,
    pub hash: Seq<u8>,
    pub difficulty: u32,
}

impl BlockView {
    /// The digest of the five fields that a block's hash covers.
    pub open spec fn digest(self) -> Seq<u8> {
        block_digest(
            self.index,
            self.timestamp,
            self.transactions,
            self.previous_hash,
            self.proof,
        )
    }

    /// The stored hash is the digest of the stored fields.
    pub open spec fn sealed(self) -> bool {
        self.hash == self.digest()
    }

    /// The stored hash clears the difficulty that the block records, and
    /// that difficulty is at least one.
    pub open spec fn proven(self) -> bool {
        &&& self.difficulty >= 1
        &&& meets_difficulty(self.hash, self.difficulty as nat)
    }
}

/// A batch of transactions bound to its predecessor by `previous_hash` and
/// sealed by `hash`. `difficulty` records how many leading zero digits were
/// asked of the hash when the block was sealed; it is zero for a genesis
/// block, which is not mined. The hash covers the other five fields, not
/// the recorded difficulty.
///
/// A block is plain data. A chain hands its blocks out by shared reference
/// only, so that none changes once it is sealed; whoever holds blocks of
/// their own can have them judged by re-verification.
#[derive(Debug)]
pub struct Block {
    pub index: u64,
    pub timestamp: i64,
    pub transactions: Vec<Transaction>,
    pub proof: u64,
    pub previous_hash: Vec<u8>,
    pub hash: Vec<u8>,
    pub difficulty: u32,
}

impl View for Block {
    type V = BlockView;

    open spec fn view(&self) -> BlockView {
        BlockView {
            index: self.index,
            timestamp: self.timestamp,
            transactions: views_of(self.transactions@),
            proof: self.proof,
            previous_hash: self.previous_hash@,
            hash: self.hash@,
            difficulty: self.difficulty,
        }
    }
}

/// The views of a sequence of blocks, in the same order.
pub open spec fn block_views(blocks: Seq<Block>) -> Seq<BlockView> {
    blocks.map_values(|b: Block| b@)
}

/// What a genesis block names as its predecessor: a digest of zeros.
pub open spec fn no_previous_hash() -> Seq<u8> {
    Seq::new(DIGEST_LEN as nat, |i: int| 0u8)
}

/// The genesis block created at `timestamp`.
pub open spec fn genesis_view(timestamp: i64) -> BlockView {
    BlockView {
        index: 0,
        timestamp,
        transactions: Seq::empty(),
        proof: 0,
        previous_hash: no_previous_hash(),
        hash: block_digest(0, timestamp, Seq::empty(), no_previous_hash(), 0),
        difficulty: 0,
    }
}

/// The hash that a block with the hashed prefix `prefix` has under `proof`.
pub open spec fn candidate_hash(prefix: Seq<u8>, proof: u64) -> Seq<u8> {
    sha256(prefix + spec_u64_to_le_bytes(proof))
}

/// `proof` seals a block with the hashed prefix `prefix` at `difficulty`.
pub open spec fn clears(prefix: Seq<u8>, difficulty: u32, proof: u64) -> bool {
    meets_difficulty(candidate_hash(prefix, proof), difficulty as nat)
}

/// `proof` is the smallest proof that seals `prefix` at `difficulty`.
pub open spec fn least_proof(prefix: Seq<u8>, difficulty: u32, proof: u64) -> bool {
    &&& clears(prefix, difficulty, proof)
    &&& forall|q: u64| q < proof ==> !#[trigger] clears(prefix, difficulty, q)
}

/// Decides whether two byte strings are the same.
pub fn same_bytes(a: &Vec<u8>, b: &Vec<u8>) -> (same: bool)
    ensures
        same == (a@ == b@),
{
    if a.len() != b.len() {
        return false;
    }
    let mut i: usize = 0;
    while i < a.len()
        invariant
            i <= a@.len(),
            a@.len() == b@.len(),
            forall|j: int| 0 <= j < i ==> a@[j] == b@[j],
        decreases a@.len() - i,
    {
        if a[i] != b[i] {
            return false;
        }
        i = i + 1;
    }
    assert(a@ =~= b@);
    true
}

/// A digest of zeros, the predecessor that a genesis block names.
pub fn zero_digest() -> (out: Vec<u8>)
    ensures
        out@ == no_previous_hash(),
{
    let mut out: Vec<u8> = Vec::new();
    let mut i: usize = 0;
    while i < DIGEST_LEN
        invariant
            i <= DIGEST_LEN,
            out@.len() == i,
            forall|j: int| 0 <= j < i ==> out@[j] == 0u8,
        decreases DIGEST_LEN - i,
    {
        out.push(0u8);
        i = i + 1;
    }
    assert(out@ =~= no_previous_hash());
    out
}

/// The proof-of-work search: tries the proofs 0, 1, 2, ... in turn and
/// returns the first under which the hash of `prefix` followed by the proof
/// starts with `difficulty` zero hexadecimal digits, together with that
/// hash. Returns `None` only when no 64-bit proof does.
pub fn search_proof(prefix: &Vec<u8>, difficulty: u32) -> (found: Option<(u64, Vec<u8>)>)
    ensures
        match found {
            Some((proof, hash)) => {
                &&& least_proof(prefix@, difficulty, proof)
                &&& hash@ == candidate_hash(prefix@, proof)
            },
            None => forall|q: u64| !#[trigger] clears(prefix@, difficulty, q),
        },
{
    let mut buffer: Vec<u8> = prefix.clone();
    let base: usize = buffer.len();
    let mut proof: u64 = 0;
    loop
        invariant
            buffer@.len() >= base,
            base == prefix@.len(),
            buffer@.take(base as int) == prefix@,
            forall|q: u64| q < proof ==> !#[trigger] clears(prefix@, difficulty, q),
        decreases u64::MAX - proof,
    {
        buffer.truncate(base);
        assert(buffer@ =~= prefix@);
        put_u64(&mut buffer, proof);
        let hash = sha256_bytes(buffer.as_slice());
        if has_leading_zeros(&hash, difficulty) {
            return Some((proof, hash));
        }
        if proof == u64::MAX {
            return None;
        }
        proof = proof + 1;
        assert(buffer@.take(base as int) =~= prefix@);
    }
}

impl Block {
    /// The genesis block created at `timestamp`: no transactions, proof 0,
    /// a predecessor hash of zeros, and the digest of these as its hash.
    pub fn genesis(timestamp: i64) -> (block: Block)
        ensures
            block@ == genesis_view(timestamp),
    {
        let transactions: Vec<Transaction> = Vec::new();
        let previous_hash = zero_digest();
        let mut preimage = encode_prefix(0, timestamp, &transactions, &previous_hash);
        put_u64(&mut preimage, 0);
        let hash = sha256_bytes(preimage.as_slice());
        assert(views_of(transactions@) =~= Seq::empty());
        Block { index: 0, timestamp, transactions, proof: 0, previous_hash, hash, difficulty: 0 }
    }

    /// A copy of this block.
    pub fn duplicate(&self) -> (copy: Block)
        ensures
            copy@ == self@,
    {
        let mut transactions: Vec<Transaction> = Vec::new();
        let mut i: usize = 0;
        while i < self.transactions.len()
            invariant
                i <= self.transactions@.len(),
                views_of(transactions@) == views_of(self.transactions@).take(i as int),
            decreases self.transactions@.len() - i,
        {
            let ghost before = views_of(transactions@);
            let copy = self.transactions[i].duplicate();
            transactions.push(copy);
            proof {
                let done = views_of(self.transactions@).take(i + 1);
                assert(views_of(transactions@) =~= before.push(copy@));
                assert(done =~= before.push(self.transactions@[i as int]@));
            }
            i = i + 1;
        }
        assert(views_of(transactions@) =~= views_of(self.transactions@));
        Block {
            index: self.index,
            timestamp: self.timestamp,
            transactions,
            proof: self.proof,
            previous_hash: self.previous_hash.clone(),
            hash: self.hash.clone(),
            difficulty: self.difficulty,
        }
    }

    /// Recomputes the digest of this block from its stored fields.
    pub fn compute_hash(&self) -> (hash: Vec<u8>)
        ensures
            hash@ == self@.digest(),
    {
        let mut preimage = encode_prefix(
            self.index,
            self.timestamp,
            &self.transactions,
            &self.previous_hash,
        );
        put_u64(&mut preimage, self.proof);
        sha256_bytes(preimage.as_slice())
    }

    /// Decides whether the stored hash is the digest of the stored fields.
    pub fn is_sealed(&self) -> (ok: bool)
        ensures
            ok == self@.sealed(),
    {
        let hash = self.compute_hash();
        same_bytes(&hash, &self.hash)
    }

    /// Decides whether the stored hash clears the recorded difficulty.
    pub fn is_proven(&self) -> (ok: bool)
        ensures
            ok == self@.proven(),
    {
        self.difficulty >= 1 && has_leading_zeros(&self.hash, self.difficulty)
    }

    /// Seals `transactions` into the block at position `index` that follows
    /// the block with hash `previous_hash`, by searching for the least proof
    /// that clears `difficulty`. Hands the transactions back where no 64-bit
    /// proof does.
    pub fn seal(
        index: u64,
        timestamp: i64,
        transactions: Vec<Transaction>,
        previous_hash: Vec<u8>,
        difficulty: u32,
    ) -> (sealed: Result<Block, Vec<Transaction>>)
        ensures
            match sealed {
                Ok(block) => {
                    &&& block@.index == index
                    &&& block@.timestamp == timestamp
                    &&& block@.transactions == views_of(transactions@)
                    &&& block@.previous_hash == previous_hash@
                    &&& block@.difficulty == difficulty
                    &&& block@.sealed()
                    &&& least_proof(
                        block_prefix(index, timestamp, views_of(transactions@), previous_hash@),
                        difficulty,
                        block@.proof,
                    )
                },
                Err(returned) => {
                    &&& returned == transactions
                    &&& forall|q: u64|
                        !#[trigger] clears(
                            block_prefix(index, timestamp, views_of(transactions@), previous_hash@),
                            difficulty,
                            q,
                        )
                },
            },
    {
        let prefix = encode_prefix(index, timestamp, &transactions, &previous_hash);
        match search_proof(&prefix, difficulty) {
            Some((proof, hash)) => Ok(
                Block { index, timestamp, transactions, proof, previous_hash, hash, difficulty },
            ),
            None => Err(transactions),
        }
    }
}

} // verus!
