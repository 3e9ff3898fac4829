use rustcoin::balances::{apply_transfer, tally};
use rustcoin::block::Block;
use rustcoin::transaction::Transaction;

fn transfer(from: &str, to: &str, amount: u64) -> Transaction {
    Transaction {
        from: from.to_string(),
        to: to.to_string(),
        amount,
        signature: None,
        public_key: None,
    }
}

fn block_of(index: u64, transactions: Vec<Transaction>) -> Block {
    Block::from_parts(index, String::new(), String::new(), String::new(), 0, transactions)
}

#[test]
fn tally_of_no_blocks_is_empty() {
    let table = tally(&Vec::new()).unwrap();
    assert_eq!(table.len(), 0);
}

#[test]
fn tally_replays_blocks_in_order() {
    let blocks = vec![
        block_of(0, vec![transfer("COINBASE", "a", 50)]),
        block_of(1, vec![transfer("a", "b", 20), transfer("b", "c", 5)]),
        block_of(2, Vec::new()),
    ];
    let table = tally(&blocks).unwrap();
    assert_eq!(table.get("COINBASE"), Some(&-50));
    assert_eq!(table.get("a"), Some(&30));
    assert_eq!(table.get("b"), Some(&15));
    assert_eq!(table.get("c"), Some(&5));
    assert_eq!(table.len(), 4);
}

#[test]
fn tally_stops_where_a_step_does_not_fit() {
    let blocks = vec![
        block_of(0, vec![transfer("a", "b", i64::MAX as u64)]),
        block_of(1, vec![transfer("c", "b", 1)]),
    ];
    assert!(tally(&blocks).is_none());
}

#[test]
fn a_transfer_that_fits_debits_and_credits() {
    let mut table = tally(&Vec::new()).unwrap();
    assert!(apply_transfer(&mut table, &transfer("a", "b", 7)));
    assert_eq!(table.get("a"), Some(&-7));
    assert_eq!(table.get("b"), Some(&7));
    assert!(apply_transfer(&mut table, &transfer("b", "b", 3)));
    assert_eq!(table.get("b"), Some(&7));
    assert_eq!(table.len(), 2);
}

#[test]
fn a_debit_that_does_not_fit_leaves_the_table() {
    let mut table = tally(&Vec::new()).unwrap();
    assert!(apply_transfer(&mut table, &transfer("a", "b", i64::MAX as u64)));
    assert!(!apply_transfer(&mut table, &transfer("a", "d", 2)));
    assert_eq!(table.get("a"), Some(&-i64::MAX));
    assert_eq!(table.get("b"), Some(&i64::MAX));
    assert_eq!(table.get("d"), None);
    assert_eq!(table.len(), 2);
}

#[test]
fn a_credit_that_does_not_fit_leaves_the_debit() {
    let mut table = tally(&Vec::new()).unwrap();
    assert!(apply_transfer(&mut table, &transfer("a", "b", i64::MAX as u64)));
    assert!(!apply_transfer(&mut table, &transfer("c", "b", 1)));
    assert_eq!(table.get("c"), Some(&-1));
    assert_eq!(table.get("b"), Some(&i64::MAX));
    assert_eq!(table.get("a"), Some(&-i64::MAX));
    assert_eq!(table.len(), 3);
}
