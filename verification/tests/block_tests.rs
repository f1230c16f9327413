use powchain::block::Block;
use powchain::transaction::Transaction;

fn mint(to: &str, amount: u32) -> Transaction {
    Transaction::new(String::new(), String::from(to), amount)
}

#[test]
fn test_block_canonical_encoding() {
    let mut b = Block::new(vec![Transaction::new(
        String::from("ab"),
        String::from("cd"),
        7,
    )]);
    b.pre_hash = String::from("ph");
    b.time_stamp = 5;
    b.nonce = String::from("9");
    assert_eq!(b.to_string_for_hash(), "2:ab2:cd1:72:ph1:51:9");
}

#[test]
fn test_block_encoding_negative_time_stamp() {
    let mut b = Block::new(vec![]);
    b.time_stamp = -3;
    b.nonce = String::from("1");
    assert_eq!(b.to_string_for_hash(), "0:2:-31:1");
}

#[test]
fn test_mine_zero_difficulty_keeps_block_untouched() {
    let mut b = Block::new(vec![mint("M", 1)]);
    let mined = b.mine(0);
    assert!(mined);
    assert_eq!(b.hash, "");
    assert_eq!(b.nonce, "");
}

#[test]
fn test_mine_meets_difficulty() {
    let mut b = Block::new(vec![mint("M", 1)]);
    b.pre_hash = String::from("abc");
    let mined = b.mine(2);
    assert!(mined);
    assert_eq!(b.hash.len(), 64);
    assert!(b.hash.starts_with("00"));
    // the stored hash really is the digest of the block's final encoding
    assert_eq!(b.hash, sha256::digest(b.to_string_for_hash()));
}

#[test]
fn test_all_transaction_is_valid() {
    let good = Block::new(vec![mint("M", 1), mint("N", 2)]);
    assert!(good.all_transaction_is_valid());
    let bad = Block::new(vec![
        mint("M", 1),
        Transaction::new(String::from("AA"), String::from("BB"), 3),
    ]);
    assert!(!bad.all_transaction_is_valid());
}
