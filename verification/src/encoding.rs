//! The byte string that stands for a block when it is hashed.
//!
//! Integers are written as eight little-endian bytes, signed ones by their
//! two's complement. Strings are written as UTF-8, and every part of
//! variable length is preceded by its length in bytes.

use vstd::prelude::*;
use vstd::bytes::*;
use vstd::utf8::*;
use crate::digest::sha256;
use crate::transaction::{views_of, Transaction, TransactionView};

verus! {

/// `bytes` preceded by its length.
pub open spec fn len_prefixed(bytes: Seq<u8>) -> Seq<u8> {
    spec_u64_to_le_bytes(bytes.len() as u64) + bytes
}

/// The bytes of one transaction: sender, receiver, amount.
pub open spec fn transaction_bytes(tx: TransactionView) -> Seq<u8> {
    len_prefixed(encode_utf8(tx.sender)) + len_prefixed(encode_utf8(tx.receiver))
        + spec_u64_to_le_bytes(tx.amount as u64)
}

/// The bytes of a list of transactions, one after the other.
pub open spec fn transactions_bytes(txs: Seq<TransactionView>) -> Seq<u8>
    decreases txs.len(),
{
    if txs.len() == 0 {
        Seq::empty()
    } else {
        transactions_bytes(txs.drop_last()) + transaction_bytes(txs.last())
    }
}

/// Everything that is hashed of a block but its proof: index, timestamp,
/// the number of transactions, the transactions, and the previous hash.
pub open spec fn block_prefix(
    index: u64,
    timestamp: i64,
    txs: Seq<TransactionView>,
    previous_hash: Seq<u8>,
) -> Seq<u8> {
    spec_u64_to_le_bytes(index) + spec_u64_to_le_bytes(timestamp as u64) + spec_u64_to_le_bytes(
        txs.len() as u64,
    ) + transactions_bytes(txs) + len_prefixed(previous_hash)
}

/// The byte string whose SHA-256 is the block's hash.
pub open spec fn block_preimage(
    index: u64,
    timestamp: i64,
    txs: Seq<TransactionView>,
    previous_hash: Seq<u8>,
    proof: u64,
) -> Seq<u8> {
    block_prefix(index, timestamp, txs, previous_hash) + spec_u64_to_le_bytes(proof)
}

/// The digest of a block with the given fields.
pub open spec fn block_digest(
    index: u64,
    timestamp: i64,
    txs: Seq<TransactionView>,
    previous_hash: Seq<u8>,
    proof: u64,
) -> Seq<u8> {
    sha256(block_preimage(index, timestamp, txs, previous_hash, proof))
}

/// Appends the eight bytes of `x` to `out`.
pub fn put_u64(out: &mut Vec<u8>, x: u64)
    ensures
        final(out)@ == old(out)@ + spec_u64_to_le_bytes(x),
{
    let mut bytes = u64_to_le_bytes(x);
    out.append(&mut bytes);
}

/// Appends the eight bytes of the two's complement of `x` to `out`.
pub fn put_i64(out: &mut Vec<u8>, x: i64)
    ensures
        final(out)@ == old(out)@ + spec_u64_to_le_bytes(x as u64),
{
    put_u64(out, #[verifier::truncate] (x as u64));
}

/// Appends `bytes` to `out`, preceded by their number.
pub fn put_len_prefixed(out: &mut Vec<u8>, bytes: &[u8])
    ensures
        final(out)@ == old(out)@ + len_prefixed(bytes@),
{
    let ghost before = out@;
    put_u64(out, bytes.len() as u64);
    out.extend_from_slice(bytes);
    assert(out@ =~= before + len_prefixed(bytes@));
}

/// Appends the bytes of one transaction to `out`.
pub fn put_transaction(out: &mut Vec<u8>, tx: &Transaction)
    ensures
        final(out)@ == old(out)@ + transaction_bytes(tx@),
{
    let ghost before = out@;
    put_len_prefixed(out, tx.sender.as_str().as_bytes());
    put_len_prefixed(out, tx.receiver.as_str().as_bytes());
    put_i64(out, tx.amount);
    assert(out@ =~= before + transaction_bytes(tx@));
}

/// Writes out everything that is hashed of a block but its proof.
pub fn encode_prefix(
    index: u64,
    timestamp: i64,
    txs: &Vec<Transaction>,
    previous_hash: &Vec<u8>,
) -> (out: Vec<u8>)
    ensures
        out@ == block_prefix(index, timestamp, views_of(txs@), previous_hash@),
{
    let mut out: Vec<u8> = Vec::new();
    put_u64(&mut out, index);
    put_i64(&mut out, timestamp);
    put_u64(&mut out, txs.len() as u64);
    let ghost head = out@;
    let mut i: usize = 0;
    while i < txs.len()
        invariant
            i <= txs@.len(),
            out@ == head + transactions_bytes(views_of(txs@).take(i as int)),
        decreases txs@.len() - i,
    {
        put_transaction(&mut out, &txs[i]);
        proof {
            let done = views_of(txs@).take(i + 1);
            assert(done.drop_last() =~= views_of(txs@).take(i as int));
            assert(done.last() == txs@[i as int]@);
            assert(out@ =~= head + transactions_bytes(done));
        }
        i = i + 1;
    }
    proof {
        assert(views_of(txs@).take(i as int) =~= views_of(txs@));
    }
    put_len_prefixed(&mut out, previous_hash.as_slice());
    assert(out@ =~= block_prefix(index, timestamp, views_of(txs@), previous_hash@));
    out
}

} // verus!
