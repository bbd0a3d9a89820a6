use exercises::block::{same_bytes, search_proof, zero_digest, Block};
use exercises::chain::{verify_blocks, Chain, INITIAL_REWARD, MAX_DIFFICULTY};
use exercises::digest::{has_leading_zeros, to_hex};
use exercises::encoding::{encode_prefix, put_i64, put_len_prefixed, put_transaction, put_u64};
use exercises::transaction::Transaction;
use sha2::{Digest, Sha256};

fn tx(sender: &str, receiver: &str, amount: i64) -> Transaction {
    Transaction::new(sender.to_string(), receiver.to_string(), amount)
}

fn parts(t: &Transaction) -> (&str, &str, i64) {
    (t.sender.as_str(), t.receiver.as_str(), t.amount)
}

fn copy_block(b: &Block) -> Block {
    b.duplicate()
}

fn copy_blocks(chain: &Chain) -> Vec<Block> {
    chain.blocks().iter().map(copy_block).collect()
}

fn leading_zero_digits(hash: &[u8]) -> u32 {
    let mut n = 0;
    for c in to_hex(&hash.to_vec()).chars() {
        if c != '0' {
            break;
        }
        n += 1;
    }
    n
}

/// The byte string of a block, written out independently of the library.
fn preimage_by_hand(b: &Block) -> Vec<u8> {
    let mut out = Vec::new();
    out.extend_from_slice(&b.index.to_le_bytes());
    out.extend_from_slice(&b.timestamp.to_le_bytes());
    out.extend_from_slice(&(b.transactions.len() as u64).to_le_bytes());
    for t in &b.transactions {
        out.extend_from_slice(&(t.sender.len() as u64).to_le_bytes());
        out.extend_from_slice(t.sender.as_bytes());
        out.extend_from_slice(&(t.receiver.len() as u64).to_le_bytes());
        out.extend_from_slice(t.receiver.as_bytes());
        out.extend_from_slice(&t.amount.to_le_bytes());
    }
    out.extend_from_slice(&(b.previous_hash.len() as u64).to_le_bytes());
    out.extend_from_slice(&b.previous_hash);
    out.extend_from_slice(&b.proof.to_le_bytes());
    out
}

#[test]
fn genesis_block_of_a_new_chain() {
    let chain = Chain::new_at("m".to_string(), 2, 1_700_000_000).unwrap();
    assert_eq!(chain.blocks().len(), 1);
    let genesis = &chain.blocks()[0];
    assert_eq!(genesis.index, 0);
    assert_eq!(genesis.timestamp, 1_700_000_000);
    assert_eq!(genesis.proof, 0);
    assert_eq!(genesis.difficulty, 0);
    assert!(genesis.transactions.is_empty());
    assert_eq!(genesis.previous_hash, vec![0u8; 32]);
    let mut preimage = Vec::new();
    preimage.extend_from_slice(&[0u8; 8]);
    preimage.extend_from_slice(&1_700_000_000i64.to_le_bytes());
    preimage.extend_from_slice(&[0u8; 8]);
    preimage.extend_from_slice(&32u64.to_le_bytes());
    preimage.extend_from_slice(&[0u8; 32]);
    preimage.extend_from_slice(&[0u8; 8]);
    assert_eq!(preimage.len(), 72);
    assert_eq!(genesis.hash, Sha256::digest(&preimage).to_vec());
    assert_eq!(genesis.hash.len(), 32);
    assert!(chain.pending_transactions().is_empty());
    assert_eq!(chain.difficulty(), 2);
    assert_eq!(chain.reward(), INITIAL_REWARD);
    assert_eq!(chain.reward(), 100);
    assert_eq!(chain.miner_address().as_str(), "m");
}

#[test]
fn new_chain_rejects_difficulty_out_of_range() {
    assert!(Chain::new_at("m".to_string(), 0, 5).is_none());
    assert!(Chain::new_at("m".to_string(), 1, 5).is_some());
    assert!(Chain::new_at("m".to_string(), MAX_DIFFICULTY, 5).is_some());
    assert!(Chain::new_at("m".to_string(), MAX_DIFFICULTY + 1, 5).is_none());
    assert!(Chain::new("m".to_string(), 0).is_none());
    assert_eq!(MAX_DIFFICULTY, 16);
}

#[test]
fn new_chain_reads_the_clock() {
    let chain = Chain::new("m".to_string(), 1).unwrap();
    let genesis = &chain.blocks()[0];
    // Any time after the start of 2020.
    assert!(genesis.timestamp > 1_577_836_800);
    assert_eq!(genesis.hash, Sha256::digest(preimage_by_hand(genesis)).to_vec());
}

#[test]
fn hash_is_the_digest_of_the_stored_fields() {
    let mut chain = Chain::new_at("miner".to_string(), 1, 42).unwrap();
    assert!(chain.submit("älice".to_string(), "bob".to_string(), 7));
    assert!(chain.submit("carol".to_string(), "dave".to_string(), i64::MAX));
    assert!(chain.mine_at(-3));
    for block in chain.blocks() {
        assert_eq!(block.hash, Sha256::digest(preimage_by_hand(block)).to_vec());
        assert_eq!(block.compute_hash(), block.hash);
        assert!(block.is_sealed());
    }
    // A digest differs from the bytes that were hashed.
    let block = &chain.blocks()[1];
    assert_ne!(block.compute_hash(), preimage_by_hand(block));
}

#[test]
fn hash_is_deterministic() {
    let mut chain = Chain::new_at("m".to_string(), 1, 9).unwrap();
    chain.submit("a".to_string(), "b".to_string(), 3);
    assert!(chain.mine_at(10));
    let block = &chain.blocks()[1];
    let first = block.compute_hash();
    let second = block.compute_hash();
    assert_eq!(first, second);
    assert_eq!(first, block.hash);
    let copy = copy_block(block);
    assert_eq!(copy.compute_hash(), first);
}

#[test]
fn hash_ignores_the_recorded_difficulty_and_covers_the_rest() {
    let mut chain = Chain::new_at("m".to_string(), 1, 9).unwrap();
    chain.submit("a".to_string(), "b".to_string(), 3);
    assert!(chain.mine_at(10));
    let sealed_hash = chain.blocks()[1].compute_hash();
    let mut b = copy_block(&chain.blocks()[1]);
    b.difficulty = 9;
    assert_eq!(b.compute_hash(), sealed_hash);
    let mut b = copy_block(&chain.blocks()[1]);
    b.index = 2;
    assert_ne!(b.compute_hash(), sealed_hash);
    let mut b = copy_block(&chain.blocks()[1]);
    b.timestamp = 11;
    assert_ne!(b.compute_hash(), sealed_hash);
    let mut b = copy_block(&chain.blocks()[1]);
    b.proof += 1;
    assert_ne!(b.compute_hash(), sealed_hash);
    let mut b = copy_block(&chain.blocks()[1]);
    b.previous_hash[0] ^= 1;
    assert_ne!(b.compute_hash(), sealed_hash);
    let mut b = copy_block(&chain.blocks()[1]);
    b.transactions[1].amount = 4;
    assert_ne!(b.compute_hash(), sealed_hash);
    let mut b = copy_block(&chain.blocks()[1]);
    b.transactions[1].sender = "aa".to_string();
    assert_ne!(b.compute_hash(), sealed_hash);
}

#[test]
fn chain_linkage_after_submitting_and_mining() {
    let mut chain = Chain::new_at("m".to_string(), 1, 100).unwrap();
    for round in 0..4i64 {
        for k in 0..round {
            assert!(chain.submit(format!("s{}", k), format!("r{}", k), k + 1));
        }
        assert!(chain.mine_at(101 + round));
    }
    let blocks = chain.blocks();
    assert_eq!(blocks.len(), 5);
    for i in 0..blocks.len() {
        assert_eq!(blocks[i].index, i as u64);
        if i > 0 {
            assert_eq!(blocks[i].previous_hash, blocks[i - 1].hash);
            assert_eq!(blocks[i].timestamp, 100 + i as i64);
            assert_eq!(blocks[i].transactions.len(), i);
        }
    }
    assert!(chain.verify());
}

#[test]
fn mined_blocks_clear_the_difficulty_of_their_time() {
    let mut chain = Chain::new_at("m".to_string(), 1, 100).unwrap();
    assert!(chain.mine_at(1));
    assert!(chain.set_difficulty(2));
    assert!(chain.mine_at(2));
    assert!(chain.set_difficulty(3));
    assert!(chain.mine_at(3));
    assert!(chain.set_difficulty(1));
    assert!(chain.mine_at(4));
    let expected = [0u32, 1, 2, 3, 1];
    for (i, block) in chain.blocks().iter().enumerate() {
        assert_eq!(block.difficulty, expected[i]);
        if i > 0 {
            assert!(leading_zero_digits(&block.compute_hash()) >= expected[i]);
            assert!(has_leading_zeros(&block.hash, expected[i]));
            assert!(block.is_proven());
        }
    }
    assert!(chain.verify());
}

#[test]
fn mining_finds_the_least_proof() {
    let mut chain = Chain::new_at("m".to_string(), 2, 5).unwrap();
    chain.submit("a".to_string(), "b".to_string(), 3);
    assert!(chain.mine_at(6));
    let block = &chain.blocks()[1];
    assert!(leading_zero_digits(&block.hash) >= 2);
    for smaller in 0..block.proof {
        let mut candidate = copy_block(block);
        candidate.proof = smaller;
        assert!(leading_zero_digits(&candidate.compute_hash()) < 2);
    }
}

#[test]
fn search_proof_returns_the_first_clearing_proof_and_its_hash() {
    let prefix = b"some prefix".to_vec();
    let (proof, hash) = search_proof(&prefix, 2).unwrap();
    let mut bytes = prefix.clone();
    bytes.extend_from_slice(&proof.to_le_bytes());
    assert_eq!(hash, Sha256::digest(&bytes).to_vec());
    assert_eq!(hash[0], 0);
    for smaller in 0..proof {
        let mut bytes = prefix.clone();
        bytes.extend_from_slice(&smaller.to_le_bytes());
        assert_ne!(Sha256::digest(&bytes)[0], 0);
    }
    // Difficulty 0 is cleared by the first proof tried.
    let (proof, hash) = search_proof(&prefix, 0).unwrap();
    assert_eq!(proof, 0);
    let mut bytes = prefix.clone();
    bytes.extend_from_slice(&0u64.to_le_bytes());
    assert_eq!(hash, Sha256::digest(&bytes).to_vec());
}

#[test]
fn seal_builds_the_block_it_is_asked_for() {
    let transactions = vec![tx("a", "b", 1), tx("c", "d", 2)];
    let previous = vec![7u8; 32];
    let block = match Block::seal(3, 99, transactions, previous.clone(), 1) {
        Ok(block) => block,
        Err(_) => panic!("no proof found"),
    };
    assert_eq!(block.index, 3);
    assert_eq!(block.timestamp, 99);
    assert_eq!(block.difficulty, 1);
    assert_eq!(block.previous_hash, previous);
    assert_eq!(block.transactions.len(), 2);
    assert_eq!(parts(&block.transactions[0]), ("a", "b", 1));
    assert_eq!(parts(&block.transactions[1]), ("c", "d", 2));
    assert!(block.is_sealed());
    assert!(block.is_proven());
    assert!(block.hash[0] < 16);
}

#[test]
fn admission_rejection() {
    let mut chain = Chain::new_at("m".to_string(), 1, 0).unwrap();
    assert!(!chain.submit("".to_string(), "bob".to_string(), 5));
    assert!(chain.pending_transactions().is_empty());
    assert!(!chain.submit("alice".to_string(), "bob".to_string(), 0));
    assert!(chain.pending_transactions().is_empty());
    assert!(chain.submit("alice".to_string(), "bob".to_string(), 5));
    assert_eq!(chain.pending_transactions().len(), 1);
    assert_eq!(parts(&chain.pending_transactions()[0]), ("alice", "bob", 5));
    assert!(!chain.submit("alice".to_string(), "".to_string(), 5));
    assert!(!chain.submit("alice".to_string(), "bob".to_string(), -5));
    assert!(!chain.submit("".to_string(), "".to_string(), i64::MIN));
    assert_eq!(chain.pending_transactions().len(), 1);
    assert_eq!(chain.blocks().len(), 1);
}

#[test]
fn duplicate_transactions_are_admitted_in_arrival_order() {
    let mut chain = Chain::new_at("m".to_string(), 1, 0).unwrap();
    assert!(chain.submit("a".to_string(), "b".to_string(), 1));
    assert!(chain.submit("c".to_string(), "d".to_string(), 2));
    assert!(chain.submit("a".to_string(), "b".to_string(), 1));
    let pool = chain.pending_transactions();
    assert_eq!(pool.len(), 3);
    assert_eq!(parts(&pool[0]), ("a", "b", 1));
    assert_eq!(parts(&pool[1]), ("c", "d", 2));
    assert_eq!(parts(&pool[2]), ("a", "b", 1));
}

#[test]
fn sealing_clears_pool_and_rewards_miner() {
    let mut chain = Chain::new("m".to_string(), 1).unwrap();
    assert!(chain.set_reward(10));
    assert!(chain.submit("a".to_string(), "b".to_string(), 3));
    assert!(chain.mine());
    assert_eq!(chain.blocks().len(), 2);
    let block = &chain.blocks()[1];
    assert_eq!(block.transactions.len(), 2);
    assert_eq!(parts(&block.transactions[0]), ("network", "m", 10));
    assert_eq!(parts(&block.transactions[1]), ("a", "b", 3));
    assert!(chain.pending_transactions().is_empty());
    assert_eq!(block.index, 1);
    assert_eq!(block.previous_hash, chain.blocks()[0].hash);
    assert!(block.timestamp >= chain.blocks()[0].timestamp - 1);
    assert!(chain.verify());
}

#[test]
fn mining_an_empty_pool_seals_the_reward_alone() {
    let mut chain = Chain::new_at("m".to_string(), 1, 0).unwrap();
    assert!(chain.mine_at(1));
    let block = &chain.blocks()[1];
    assert_eq!(block.transactions.len(), 1);
    assert_eq!(parts(&block.transactions[0]), ("network", "m", 100));
    assert!(chain.set_reward(0));
    assert!(chain.mine_at(2));
    assert_eq!(parts(&chain.blocks()[2].transactions[0]), ("network", "m", 0));
}

#[test]
fn bounds() {
    let mut chain = Chain::new_at("m".to_string(), 2, 0).unwrap();
    assert!(!chain.set_difficulty(0));
    assert_eq!(chain.difficulty(), 2);
    assert!(chain.set_difficulty(4));
    assert_eq!(chain.difficulty(), 4);
    assert!(!chain.set_difficulty(17));
    assert!(!chain.set_difficulty(u32::MAX));
    assert_eq!(chain.difficulty(), 4);
    assert!(chain.set_difficulty(16));
    assert_eq!(chain.difficulty(), 16);
    assert!(chain.set_difficulty(1));
    assert!(!chain.set_reward(-1));
    assert_eq!(chain.reward(), 100);
    assert!(chain.set_reward(0));
    assert_eq!(chain.reward(), 0);
    assert!(chain.set_reward(i64::MAX));
    assert_eq!(chain.reward(), i64::MAX);
    assert!(!chain.set_reward(i64::MIN));
    assert_eq!(chain.reward(), i64::MAX);
}

#[test]
fn changing_difficulty_leaves_sealed_blocks_valid() {
    let mut chain = Chain::new_at("m".to_string(), 1, 0).unwrap();
    assert!(chain.mine_at(1));
    let before = chain.blocks()[1].hash.clone();
    assert!(chain.set_difficulty(5));
    assert_eq!(chain.blocks()[1].hash, before);
    assert_eq!(chain.blocks()[1].difficulty, 1);
    assert!(chain.verify());
}

#[test]
fn idempotent_verification() {
    let mut chain = Chain::new_at("m".to_string(), 1, 0).unwrap();
    chain.submit("a".to_string(), "b".to_string(), 3);
    assert!(chain.mine_at(1));
    assert!(chain.mine_at(2));
    let first = chain.verify();
    let second = chain.verify();
    assert!(first);
    assert_eq!(first, second);
    let mut blocks = copy_blocks(&chain);
    blocks[1].proof += 1;
    let first = verify_blocks(&blocks);
    let second = verify_blocks(&blocks);
    assert!(!first);
    assert_eq!(first, second);
}

#[test]
fn verification_detects_tampering() {
    let mut chain = Chain::new_at("m".to_string(), 1, 0).unwrap();
    chain.submit("a".to_string(), "b".to_string(), 3);
    assert!(chain.mine_at(1));
    chain.submit("c".to_string(), "d".to_string(), 4);
    assert!(chain.mine_at(2));
    assert!(verify_blocks(&copy_blocks(&chain)));

    // A changed amount breaks the seal of its block.
    let mut blocks = copy_blocks(&chain);
    blocks[1].transactions[1].amount = 1000;
    assert!(!blocks[1].is_sealed());
    assert!(!verify_blocks(&blocks));

    // A changed hash breaks the seal, and the link of the next block.
    let mut blocks = copy_blocks(&chain);
    blocks[1].hash[31] ^= 1;
    assert!(!verify_blocks(&blocks));

    // Resealing a changed block with its new digest breaks the link (and,
    // most likely, the proof).
    let mut blocks = copy_blocks(&chain);
    blocks[1].transactions[1].amount = 1000;
    blocks[1].hash = blocks[1].compute_hash();
    assert!(blocks[1].is_sealed());
    assert!(!verify_blocks(&blocks));

    // A wrong predecessor hash.
    let mut blocks = copy_blocks(&chain);
    blocks[2].previous_hash = vec![0u8; 32];
    assert!(!verify_blocks(&blocks));

    // A recorded difficulty that the hash does not clear, or of zero.
    let mut blocks = copy_blocks(&chain);
    blocks[2].difficulty = 64;
    assert!(!blocks[2].is_proven());
    assert!(!verify_blocks(&blocks));
    let mut blocks = copy_blocks(&chain);
    blocks[2].difficulty = 0;
    assert!(!verify_blocks(&blocks));

    // The genesis block itself is not re-verified.
    let mut blocks = copy_blocks(&chain);
    blocks[0].timestamp = 77;
    assert!(verify_blocks(&blocks));
    assert!(verify_blocks(&Vec::new()));
}

#[test]
fn leading_zero_rule() {
    assert!(has_leading_zeros(&vec![0x00, 0x0f, 0xff], 0));
    assert!(has_leading_zeros(&vec![0x00, 0x0f, 0xff], 1));
    assert!(has_leading_zeros(&vec![0x00, 0x0f, 0xff], 2));
    assert!(has_leading_zeros(&vec![0x00, 0x0f, 0xff], 3));
    assert!(!has_leading_zeros(&vec![0x00, 0x0f, 0xff], 4));
    assert!(!has_leading_zeros(&vec![0x00, 0x0f, 0xff], 7));
    assert!(!has_leading_zeros(&vec![0x10], 1));
    assert!(has_leading_zeros(&vec![0x01], 1));
    assert!(!has_leading_zeros(&vec![0x01], 2));
    assert!(has_leading_zeros(&vec![0x00], 2));
    assert!(!has_leading_zeros(&vec![0x00], 3));
    assert!(has_leading_zeros(&vec![], 0));
    assert!(!has_leading_zeros(&vec![], 1));
    assert!(has_leading_zeros(&vec![0u8; 32], 64));
    assert!(!has_leading_zeros(&vec![0u8; 32], 65));
    assert!(!has_leading_zeros(&vec![0u8; 32], u32::MAX));
}

#[test]
fn hexadecimal_text() {
    assert_eq!(to_hex(&vec![]), "");
    assert_eq!(to_hex(&vec![0x00, 0x0f, 0xa5, 0xff]), "000fa5ff");
    assert_eq!(to_hex(&vec![0x12, 0x34, 0x56, 0x78, 0x9a, 0xbc, 0xde, 0xf0]), "123456789abcdef0");
    assert_eq!(
        to_hex(&Sha256::digest(b"abc").to_vec()),
        "ba7816bf8f01cfea414140de5dae2223b00361a396177a9cb410ff61f20015ad"
    );
}

#[test]
fn transaction_admissibility() {
    assert!(tx("alice", "bob", 5).is_admissible());
    assert!(tx("a", "b", 1).is_admissible());
    assert!(!tx("", "bob", 5).is_admissible());
    assert!(!tx("alice", "", 5).is_admissible());
    assert!(!tx("alice", "bob", 0).is_admissible());
    assert!(!tx("alice", "bob", -1).is_admissible());
    let t = tx("alice", "bob", 5);
    let d = t.duplicate();
    assert_eq!(parts(&d), ("alice", "bob", 5));
}

#[test]
fn byte_encoding() {
    let mut out = vec![9u8];
    put_u64(&mut out, 0x0102030405060708);
    assert_eq!(out, vec![9, 8, 7, 6, 5, 4, 3, 2, 1]);
    let mut out = Vec::new();
    put_i64(&mut out, -2);
    assert_eq!(out, vec![0xfe, 0xff, 0xff, 0xff, 0xff, 0xff, 0xff, 0xff]);
    let mut out = Vec::new();
    put_len_prefixed(&mut out, b"hi");
    assert_eq!(out, vec![2, 0, 0, 0, 0, 0, 0, 0, b'h', b'i']);
    let mut out = Vec::new();
    put_transaction(&mut out, &tx("é", "b", 3));
    assert_eq!(
        out,
        vec![2, 0, 0, 0, 0, 0, 0, 0, 0xc3, 0xa9, 1, 0, 0, 0, 0, 0, 0, 0, b'b', 3, 0, 0, 0, 0, 0, 0, 0]
    );
    let prefix = encode_prefix(1, 2, &vec![tx("a", "b", 3)], &vec![0xaa, 0xbb]);
    let mut expected = Vec::new();
    expected.extend_from_slice(&1u64.to_le_bytes());
    expected.extend_from_slice(&2u64.to_le_bytes());
    expected.extend_from_slice(&1u64.to_le_bytes());
    expected.extend_from_slice(&[1, 0, 0, 0, 0, 0, 0, 0, b'a', 1, 0, 0, 0, 0, 0, 0, 0, b'b']);
    expected.extend_from_slice(&3u64.to_le_bytes());
    expected.extend_from_slice(&[2, 0, 0, 0, 0, 0, 0, 0, 0xaa, 0xbb]);
    assert_eq!(prefix, expected);
}

#[test]
fn byte_helpers() {
    assert_eq!(zero_digest(), vec![0u8; 32]);
    assert!(same_bytes(&vec![], &vec![]));
    assert!(same_bytes(&vec![1, 2, 3], &vec![1, 2, 3]));
    assert!(!same_bytes(&vec![1, 2, 3], &vec![1, 2, 4]));
    assert!(!same_bytes(&vec![1, 2, 3], &vec![1, 2]));
    assert!(!same_bytes(&vec![], &vec![0]));
}

#[test]
fn a_copy_of_a_block_holds_the_same() {
    let mut chain = Chain::new_at("m".to_string(), 1, 9).unwrap();
    chain.submit("a".to_string(), "b".to_string(), 3);
    chain.submit("c".to_string(), "d".to_string(), 4);
    assert!(chain.mine_at(10));
    let block = &chain.blocks()[1];
    let copy = block.duplicate();
    assert_eq!(copy.index, block.index);
    assert_eq!(copy.timestamp, block.timestamp);
    assert_eq!(copy.proof, block.proof);
    assert_eq!(copy.previous_hash, block.previous_hash);
    assert_eq!(copy.hash, block.hash);
    assert_eq!(copy.difficulty, block.difficulty);
    assert_eq!(copy.transactions.len(), 3);
    for (a, b) in copy.transactions.iter().zip(block.transactions.iter()) {
        assert_eq!(parts(a), parts(b));
    }
    let empty = Block::genesis(3).duplicate();
    assert!(empty.transactions.is_empty());
    assert_eq!(empty.hash, Block::genesis(3).hash);
}

#[test]
fn genesis_block_alone() {
    let genesis = Block::genesis(-1);
    assert_eq!(genesis.index, 0);
    assert_eq!(genesis.timestamp, -1);
    assert_eq!(genesis.hash, Sha256::digest(preimage_by_hand(&genesis)).to_vec());
    assert!(genesis.is_sealed());
    assert!(!genesis.is_proven());
}

#[test]
fn different_blocks_are_written_as_different_bytes() {
    // Moving a character from one name to the next changes the bytes.
    let first = encode_prefix(1, 2, &vec![tx("ab", "c", 3)], &vec![]);
    let second = encode_prefix(1, 2, &vec![tx("a", "bc", 3)], &vec![]);
    assert_ne!(first, second);
    // So does splitting one transaction's place among two lists.
    let one = encode_prefix(1, 2, &vec![tx("a", "b", 3), tx("c", "d", 4)], &vec![]);
    let other = encode_prefix(1, 2, &vec![tx("a", "b", 3)], &vec![]);
    assert_ne!(one, other);
    assert!(one.len() > other.len());
    // The same fields give the same bytes.
    assert_eq!(first, encode_prefix(1, 2, &vec![tx("ab", "c", 3)], &vec![]));
}
