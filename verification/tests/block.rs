use rustcoin::block::{render_list, Block, BLOCK_REWARD};
use rustcoin::transaction::Transaction;
use sha2::{Digest, Sha256};

const STAMP: &str = "2024-05-01T12:00:00.123456789+00:00";

fn transfer(from: &str, to: &str, amount: u64) -> Transaction {
    Transaction {
        from: from.to_string(),
        to: to.to_string(),
        amount,
        signature: None,
        public_key: None,
    }
}

fn mine(index: u64, miner: &str, previous: &str, difficulty: usize, tx: Option<Transaction>) -> Block {
    Block::mine(index, STAMP.to_string(), miner, previous.to_string(), difficulty, tx)
        .expect("a nonce is found at a small difficulty")
}

fn with_nonce(block: &Block, nonce: u64) -> Block {
    Block::from_parts(
        block.index(),
        block.timestamp().clone(),
        block.previous_hash().clone(),
        block.hash().clone(),
        nonce,
        block.transactions().clone(),
    )
}

fn hash_by_format(block: &Block) -> String {
    let content = format!(
        "{}{}{:?}{}{}",
        block.index(),
        block.timestamp(),
        block.transactions(),
        block.previous_hash(),
        block.nonce()
    );
    hex::encode(Sha256::digest(content.as_bytes()))
}

#[test]
fn reward_is_fifty() {
    assert_eq!(BLOCK_REWARD, 50);
}

#[test]
fn mined_block_keeps_what_it_was_given() {
    let block = mine(3, "miner123", "00ab", 2, None);
    assert_eq!(block.index(), 3);
    assert_eq!(block.timestamp(), STAMP);
    assert_eq!(block.previous_hash(), "00ab");
}

#[test]
fn mined_block_without_transaction_holds_the_reward() {
    let block = mine(0, "miner123", "0", 1, None);
    let transactions = block.transactions();
    assert_eq!(transactions.len(), 1);
    assert_eq!(transactions[0].from, "COINBASE");
    assert_eq!(transactions[0].to, "miner123");
    assert_eq!(transactions[0].amount, 50);
    assert_eq!(transactions[0].signature, None);
    assert_eq!(transactions[0].public_key, None);
}

#[test]
fn mined_block_with_transaction_holds_it_alone() {
    let mut supplied = transfer("alice", "bob", 9);
    supplied.signature = Some("aa".to_string());
    supplied.public_key = Some("bb".to_string());
    let block = mine(1, "miner123", "0", 1, Some(supplied));
    let transactions = block.transactions();
    assert_eq!(transactions.len(), 1);
    assert_eq!(transactions[0].from, "alice");
    assert_eq!(transactions[0].to, "bob");
    assert_eq!(transactions[0].amount, 9);
    assert_eq!(transactions[0].signature.as_deref(), Some("aa"));
    assert_eq!(transactions[0].public_key.as_deref(), Some("bb"));
}

#[test]
fn mined_hash_meets_the_target_and_is_reproducible() {
    for difficulty in 0..=3usize {
        let block = mine(7, "miner123", "prev", difficulty, None);
        assert!(block.hash().starts_with(&"0".repeat(difficulty)));
        assert_eq!(block.hash().len(), 64);
        assert_eq!(&block.compute_hash(), block.hash());
        assert!(block.is_sealed(difficulty));
    }
}

#[test]
fn mined_hash_is_the_digest_of_the_formatted_content() {
    let block = mine(12, "miner \"quoted\" \u{e9}", "00ff", 2, None);
    assert_eq!(block.hash(), &hash_by_format(&block));
    let block = mine(1, "m", "0", 1, Some(transfer("a\\b", "c\nd", u64::MAX)));
    assert_eq!(block.hash(), &hash_by_format(&block));
}

#[test]
fn compute_hash_is_the_digest_of_the_formatted_content_for_any_fields() {
    let mut signed = transfer("x", "y", 3);
    signed.signature = Some("0a".to_string());
    signed.public_key = Some("0b".to_string());
    let block = Block::from_parts(
        99,
        "then".to_string(),
        "before".to_string(),
        "stored".to_string(),
        1234567890123,
        vec![transfer("COINBASE", "m", 50), signed, transfer("", "", 0)],
    );
    assert_eq!(block.compute_hash(), hash_by_format(&block));
    let empty = Block::from_parts(0, String::new(), String::new(), String::new(), 0, Vec::new());
    assert_eq!(empty.compute_hash(), hash_by_format(&empty));
}

#[test]
fn mining_takes_the_least_nonce() {
    let block = mine(5, "miner123", "abc", 2, None);
    for nonce in 0..block.nonce() {
        let earlier = with_nonce(&block, nonce);
        assert!(!earlier.compute_hash().starts_with("00"), "nonce {}", nonce);
    }
}

#[test]
fn mining_finds_the_known_nonce() {
    let block =
        Block::mine(0, "stamp0".to_string(), "miner123", "0".to_string(), 4, None).unwrap();
    assert_eq!(block.nonce(), 29964);
    assert!(block.hash().starts_with("0000"));
}

#[test]
fn mining_at_difficulty_zero_takes_nonce_zero() {
    let block = mine(5, "miner123", "abc", 0, None);
    assert_eq!(block.nonce(), 0);
}

#[test]
fn mining_is_determined_by_its_arguments() {
    let first = mine(2, "miner123", "abc", 2, None);
    let second = mine(2, "miner123", "abc", 2, None);
    assert_eq!(first.nonce(), second.nonce());
    assert_eq!(first.hash(), second.hash());
    let other = mine(3, "miner123", "abc", 2, None);
    assert_ne!(first.hash(), other.hash());
}

#[test]
fn mining_beyond_the_length_of_a_digest_finds_nothing() {
    let block = Block::mine(0, STAMP.to_string(), "miner123", "0".to_string(), 65, None);
    assert!(block.is_none());
    let block = Block::new(0, "miner123", "0".to_string(), usize::MAX, None);
    assert!(block.is_none());
}

#[test]
fn new_stamps_the_block_with_the_current_time() {
    let before = chrono::Utc::now();
    let block = Block::new(1, "miner123", "0".to_string(), 1, None).unwrap();
    let after = chrono::Utc::now();
    let stamp = chrono::DateTime::parse_from_rfc3339(block.timestamp()).unwrap();
    assert!(before <= stamp && stamp <= after);
    assert!(block.is_sealed(1));
    assert_eq!(block.index(), 1);
    assert_eq!(block.previous_hash(), "0");
    assert_eq!(block.transactions()[0].to, "miner123");
}

#[test]
fn from_parts_keeps_every_field() {
    let block = Block::from_parts(
        4,
        "t".to_string(),
        "p".to_string(),
        "h".to_string(),
        77,
        vec![transfer("a", "b", 1), transfer("c", "d", 2)],
    );
    assert_eq!(block.index(), 4);
    assert_eq!(block.timestamp(), "t");
    assert_eq!(block.previous_hash(), "p");
    assert_eq!(block.hash(), "h");
    assert_eq!(block.nonce(), 77);
    assert_eq!(block.transactions().len(), 2);
    assert_eq!(block.transactions()[1].from, "c");
    assert_eq!(block.transactions()[1].amount, 2);
}

#[test]
fn a_block_is_not_sealed_with_another_hash_or_a_higher_target() {
    let block = mine(1, "miner123", "0", 1, None);
    assert!(block.is_sealed(1));
    assert!(block.is_sealed(0));
    let zeros = block.hash().chars().take_while(|c| *c == '0').count();
    assert!(block.is_sealed(zeros));
    assert!(!block.is_sealed(zeros + 1));
    let wrong = Block::from_parts(
        block.index(),
        block.timestamp().clone(),
        block.previous_hash().clone(),
        "0".repeat(64),
        block.nonce(),
        block.transactions().clone(),
    );
    assert!(!wrong.is_sealed(1));
    assert!(!with_nonce(&block, block.nonce() + 1).is_sealed(0));
}

#[test]
fn clone_keeps_every_field_of_a_block() {
    let block = mine(1, "miner123", "0", 1, Some(transfer("a", "b", 3)));
    let copy = block.clone();
    assert_eq!(copy.index(), block.index());
    assert_eq!(copy.timestamp(), block.timestamp());
    assert_eq!(copy.previous_hash(), block.previous_hash());
    assert_eq!(copy.hash(), block.hash());
    assert_eq!(copy.nonce(), block.nonce());
    assert_eq!(format!("{:?}", copy.transactions()), format!("{:?}", block.transactions()));
}

#[test]
fn lists_render_as_debug_does() {
    for list in [
        Vec::new(),
        vec![transfer("a", "b", 1)],
        vec![transfer("a", "b", 1), transfer("c", "d", 2)],
        vec![transfer("a", "b", 1), transfer("c", "d", 2), transfer("e", "f", 3)],
    ] {
        let mut buf = Vec::new();
        render_list(&mut buf, &list);
        assert_eq!(String::from_utf8(buf).unwrap(), format!("{:?}", list));
    }
}

#[test]
fn empty_list_renders_as_brackets() {
    let mut buf = b"x".to_vec();
    render_list(&mut buf, &Vec::new());
    assert_eq!(buf, b"x[]".to_vec());
}
