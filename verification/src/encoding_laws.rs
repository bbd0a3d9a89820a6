//! The encoding of a block is unambiguous: the bytes that are hashed say
//! which fields they were written from.

use vstd::prelude::*;
use vstd::bytes::*;
use vstd::utf8::*;
use crate::block::BlockView;
use crate::encoding::{block_preimage, len_prefixed, transaction_bytes, transactions_bytes};
use crate::transaction::TransactionView;

verus! {

/// `len` can be written as a 64-bit number, as every length of a value in
/// memory can.
pub open spec fn fits(len: nat) -> bool {
    len <= u64::MAX
}

/// The names of both parties have lengths that can be written.
pub open spec fn transaction_fits(tx: TransactionView) -> bool {
    &&& fits(encode_utf8(tx.sender).len())
    &&& fits(encode_utf8(tx.receiver).len())
}

/// Every length in the block can be written.
pub open spec fn block_fits(block: BlockView) -> bool {
    &&& fits(block.transactions.len())
    &&& fits(block.previous_hash.len())
    &&& forall|i: int|
        0 <= i < block.transactions.len() ==> transaction_fits(#[trigger] block.transactions[i])
}

/// Where two byte strings that each start with the eight bytes of a number
/// are equal, so are the numbers, and so is what follows them.
pub proof fn lemma_split_u64(x: u64, after_x: Seq<u8>, y: u64, after_y: Seq<u8>)
    requires
        spec_u64_to_le_bytes(x) + after_x == spec_u64_to_le_bytes(y) + after_y,
    ensures
        x == y,
        after_x == after_y,
{
    lemma_auto_spec_u64_to_from_le_bytes();
    let a = spec_u64_to_le_bytes(x);
    let b = spec_u64_to_le_bytes(y);
    assert((a + after_x).subrange(0, 8) =~= a);
    assert((b + after_y).subrange(0, 8) =~= b);
    assert(spec_u64_from_le_bytes(a) == spec_u64_from_le_bytes(b));
    assert((a + after_x).subrange(8, (a + after_x).len() as int) =~= after_x);
    assert((b + after_y).subrange(8, (b + after_y).len() as int) =~= after_y);
}

/// Where two byte strings that each start with a part preceded by its
/// length are equal, so are the parts, and so is what follows them.
pub proof fn lemma_split_len_prefixed(a: Seq<u8>, after_a: Seq<u8>, b: Seq<u8>, after_b: Seq<u8>)
    requires
        fits(a.len()),
        fits(b.len()),
        len_prefixed(a) + after_a == len_prefixed(b) + after_b,
    ensures
        a == b,
        after_a == after_b,
{
    assert(len_prefixed(a) + after_a =~= spec_u64_to_le_bytes(a.len() as u64) + (a + after_a));
    assert(len_prefixed(b) + after_b =~= spec_u64_to_le_bytes(b.len() as u64) + (b + after_b));
    lemma_split_u64(a.len() as u64, a + after_a, b.len() as u64, b + after_b);
    assert(a.len() == b.len());
    assert((a + after_a).subrange(0, a.len() as int) =~= a);
    assert((b + after_b).subrange(0, b.len() as int) =~= b);
    assert((a + after_a).subrange(a.len() as int, (a + after_a).len() as int) =~= after_a);
    assert((b + after_b).subrange(b.len() as int, (b + after_b).len() as int) =~= after_b);
}

/// Two numbers with a sign that have the same two's complement are equal.
pub proof fn lemma_twos_complement_is_injective(x: i64, y: i64)
    requires
        x as u64 == y as u64,
    ensures
        x == y,
{
    assert(x as u64 == y as u64 ==> x == y) by (bit_vector);
}

/// Where two byte strings that each start with a transaction are equal, so
/// are the transactions, and so is what follows them.
pub proof fn lemma_split_transaction(
    a: TransactionView,
    after_a: Seq<u8>,
    b: TransactionView,
    after_b: Seq<u8>,
)
    requires
        transaction_fits(a),
        transaction_fits(b),
        transaction_bytes(a) + after_a == transaction_bytes(b) + after_b,
    ensures
        a == b,
        after_a == after_b,
{
    let rest_a = len_prefixed(encode_utf8(a.receiver)) + (spec_u64_to_le_bytes(a.amount as u64)
        + after_a);
    let rest_b = len_prefixed(encode_utf8(b.receiver)) + (spec_u64_to_le_bytes(b.amount as u64)
        + after_b);
    assert(transaction_bytes(a) + after_a =~= len_prefixed(encode_utf8(a.sender)) + rest_a);
    assert(transaction_bytes(b) + after_b =~= len_prefixed(encode_utf8(b.sender)) + rest_b);
    lemma_split_len_prefixed(encode_utf8(a.sender), rest_a, encode_utf8(b.sender), rest_b);
    lemma_split_len_prefixed(
        encode_utf8(a.receiver),
        spec_u64_to_le_bytes(a.amount as u64) + after_a,
        encode_utf8(b.receiver),
        spec_u64_to_le_bytes(b.amount as u64) + after_b,
    );
    lemma_split_u64(a.amount as u64, after_a, b.amount as u64, after_b);
    lemma_twos_complement_is_injective(a.amount, b.amount);
    encode_utf8_decode_utf8(a.sender);
    encode_utf8_decode_utf8(b.sender);
    encode_utf8_decode_utf8(a.receiver);
    encode_utf8_decode_utf8(b.receiver);
}

/// The bytes of a list of transactions are those of its first followed by
/// those of the others.
pub proof fn lemma_transactions_bytes_from_front(txs: Seq<TransactionView>)
    requires
        txs.len() > 0,
    ensures
        transactions_bytes(txs) == transaction_bytes(txs[0]) + transactions_bytes(txs.drop_first()),
    decreases txs.len(),
{
    if txs.len() == 1 {
        assert(txs.drop_last().len() == 0);
        assert(txs.drop_first().len() == 0);
        assert(transactions_bytes(txs.drop_last()) =~= Seq::<u8>::empty());
        assert(transactions_bytes(txs.drop_first()) =~= Seq::<u8>::empty());
        assert(txs.last() == txs[0]);
        assert(transactions_bytes(txs) =~= transaction_bytes(txs[0]));
        assert(transaction_bytes(txs[0]) + transactions_bytes(txs.drop_first())
            =~= transaction_bytes(txs[0]));
    } else {
        let front = txs.drop_last();
        let back = txs.drop_first();
        lemma_transactions_bytes_from_front(front);
        assert(front.drop_first() =~= back.drop_last());
        assert(front[0] == txs[0]);
        assert(back.last() == txs.last());
        assert(transactions_bytes(txs) =~= transaction_bytes(txs[0]) + (transactions_bytes(
            back.drop_last(),
        ) + transaction_bytes(back.last())));
    }
}

/// Where two byte strings that each start with as many transactions as the
/// other are equal, so are the transactions, and so is what follows them.
pub proof fn lemma_split_transactions(
    a: Seq<TransactionView>,
    after_a: Seq<u8>,
    b: Seq<TransactionView>,
    after_b: Seq<u8>,
)
    requires
        a.len() == b.len(),
        forall|i: int| 0 <= i < a.len() ==> transaction_fits(#[trigger] a[i]),
        forall|i: int| 0 <= i < b.len() ==> transaction_fits(#[trigger] b[i]),
        transactions_bytes(a) + after_a == transactions_bytes(b) + after_b,
    ensures
        a == b,
        after_a == after_b,
    decreases a.len(),
{
    if a.len() == 0 {
        assert(a =~= b);
        assert(transactions_bytes(a) + after_a =~= after_a);
        assert(transactions_bytes(b) + after_b =~= after_b);
    } else {
        lemma_transactions_bytes_from_front(a);
        lemma_transactions_bytes_from_front(b);
        let rest_a = transactions_bytes(a.drop_first()) + after_a;
        let rest_b = transactions_bytes(b.drop_first()) + after_b;
        assert(transactions_bytes(a) + after_a =~= transaction_bytes(a[0]) + rest_a);
        assert(transactions_bytes(b) + after_b =~= transaction_bytes(b[0]) + rest_b);
        lemma_split_transaction(a[0], rest_a, b[0], rest_b);
        assert forall|i: int| 0 <= i < a.drop_first().len() implies transaction_fits(
            #[trigger] a.drop_first()[i],
        ) by {
            assert(a.drop_first()[i] == a[i + 1]);
        }
        assert forall|i: int| 0 <= i < b.drop_first().len() implies transaction_fits(
            #[trigger] b.drop_first()[i],
        ) by {
            assert(b.drop_first()[i] == b[i + 1]);
        }
        lemma_split_transactions(a.drop_first(), after_a, b.drop_first(), after_b);
        assert(a =~= seq![a[0]] + a.drop_first());
        assert(b =~= seq![b[0]] + b.drop_first());
    }
}

/// The hashed bytes of a block, written as each part followed by all that
/// comes after it.
pub open spec fn preimage_by_parts(block: BlockView) -> Seq<u8> {
    spec_u64_to_le_bytes(block.index) + (spec_u64_to_le_bytes(block.timestamp as u64) + (
    spec_u64_to_le_bytes(block.transactions.len() as u64) + (transactions_bytes(block.transactions)
        + (len_prefixed(block.previous_hash) + spec_u64_to_le_bytes(block.proof)))))
}

/// Writing the parts one after the other gives the same bytes, however
/// they are grouped.
pub proof fn lemma_preimage_by_parts(block: BlockView)
    ensures
        block_preimage(
            block.index,
            block.timestamp,
            block.transactions,
            block.previous_hash,
            block.proof,
        ) == preimage_by_parts(block),
{
    let index = spec_u64_to_le_bytes(block.index);
    let timestamp = spec_u64_to_le_bytes(block.timestamp as u64);
    let count = spec_u64_to_le_bytes(block.transactions.len() as u64);
    let transactions = transactions_bytes(block.transactions);
    let previous = len_prefixed(block.previous_hash);
    let proof = spec_u64_to_le_bytes(block.proof);
    assert(((((index + timestamp) + count) + transactions) + previous) + proof =~= index + (
    timestamp + (count + (transactions + (previous + proof)))));
}

/// Two blocks whose hashed bytes are the same agree on all that is hashed:
/// index, timestamp, transactions, predecessor hash and proof. So two
/// blocks that differ in any of these have the same hash only where
/// SHA-256 maps two different byte strings to one digest.
pub proof fn lemma_preimage_is_unambiguous(a: BlockView, b: BlockView)
    requires
        block_fits(a),
        block_fits(b),
        block_preimage(a.index, a.timestamp, a.transactions, a.previous_hash, a.proof)
            == block_preimage(b.index, b.timestamp, b.transactions, b.previous_hash, b.proof),
    ensures
        a.index == b.index,
        a.timestamp == b.timestamp,
        a.transactions == b.transactions,
        a.previous_hash == b.previous_hash,
        a.proof == b.proof,
{
    lemma_preimage_by_parts(a);
    lemma_preimage_by_parts(b);
    let tail_a = len_prefixed(a.previous_hash) + spec_u64_to_le_bytes(a.proof);
    let tail_b = len_prefixed(b.previous_hash) + spec_u64_to_le_bytes(b.proof);
    let body_a = transactions_bytes(a.transactions) + tail_a;
    let body_b = transactions_bytes(b.transactions) + tail_b;
    let counted_a = spec_u64_to_le_bytes(a.transactions.len() as u64) + body_a;
    let counted_b = spec_u64_to_le_bytes(b.transactions.len() as u64) + body_b;
    let timed_a = spec_u64_to_le_bytes(a.timestamp as u64) + counted_a;
    let timed_b = spec_u64_to_le_bytes(b.timestamp as u64) + counted_b;
    lemma_split_u64(a.index, timed_a, b.index, timed_b);
    lemma_split_u64(a.timestamp as u64, counted_a, b.timestamp as u64, counted_b);
    lemma_twos_complement_is_injective(a.timestamp, b.timestamp);
    lemma_split_u64(a.transactions.len() as u64, body_a, b.transactions.len() as u64, body_b);
    lemma_split_transactions(a.transactions, tail_a, b.transactions, tail_b);
    lemma_split_len_prefixed(
        a.previous_hash,
        spec_u64_to_le_bytes(a.proof),
        b.previous_hash,
        spec_u64_to_le_bytes(b.proof),
    );
    lemma_auto_spec_u64_to_from_le_bytes();
    assert(spec_u64_from_le_bytes(spec_u64_to_le_bytes(a.proof)) == spec_u64_from_le_bytes(
        spec_u64_to_le_bytes(b.proof),
    ));
}

} // verus!
