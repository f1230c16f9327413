use crypto::ed25519::keypair;
use powchain::chain::{Chain, SubmitError};
use powchain::hex::u8_to_string;
use powchain::transaction::Transaction;

fn test_keypair(seed: &[u8; 32]) -> (Vec<u8>, String) {
    let (private_key, public_key) = keypair(seed);
    (private_key.to_vec(), u8_to_string(&public_key))
}

#[test]
fn test_new_chain_is_valid() {
    let chain = Chain::new();
    assert_eq!(chain.chain.len(), 1);
    assert_eq!(chain.transaction_pool.len(), 0);
    assert!(chain.is_valid_chain());
}

#[test]
fn test_genesis_hash_matches_sha256_crate() {
    let chain = Chain::new();
    let recomputed = sha256::digest(chain.chain[0].to_string_for_hash());
    assert_eq!(chain.chain[0].hash, recomputed);
}

#[test]
fn test_mine_reward_only_pool() {
    let mut chain = Chain::with_config(3, 50);
    assert!(chain.is_valid_chain());
    let mined = chain.mine_transaction_pool(String::from("M"));
    assert!(mined);
    assert_eq!(chain.chain.len(), 2);
    assert_eq!(chain.transaction_pool.len(), 0);
    assert_eq!(chain.chain[1].data.len(), 1);
    assert_eq!(chain.chain[1].data[0].from, "");
    assert_eq!(chain.chain[1].data[0].to, "M");
    assert_eq!(chain.chain[1].data[0].amount, 50);
    assert!(chain.chain[1].hash.starts_with("000"));
    assert!(chain.is_valid_chain());
    // tampering with the mined amount must be detected
    chain.chain[1].data[0].amount = 999;
    assert!(!chain.is_valid_chain());
}

#[test]
fn test_empty_miner_identity_gets_no_reward() {
    let mut chain = Chain::with_config(2, 50);
    let mined = chain.mine_transaction_pool(String::new());
    assert!(mined);
    assert_eq!(chain.chain.len(), 2);
    assert_eq!(chain.chain[1].data.len(), 0);
    assert!(chain.is_valid_chain());
}

#[test]
fn test_three_signed_transfers_mined_and_valid() {
    let (private_key_s, sender) = test_keypair(b"qwertyuiopasdfghjklzxcvbnm012345");
    let (_private_key_r, receiver) = test_keypair(b"012345qwertyuiopasdfghjklzxcvbnm");

    let mut chain = Chain::with_config(2, 50);
    for amount in [10u32, 20, 30] {
        let mut t = Transaction::new(sender.clone(), receiver.clone(), amount);
        t.sign(&private_key_s);
        assert_eq!(chain.add_transaction(t), Ok(()));
    }
    assert_eq!(chain.transaction_pool.len(), 3);

    let mined = chain.mine_transaction_pool(String::from("miner1"));
    assert!(mined);
    assert_eq!(chain.chain.len(), 2);
    assert!(chain.chain[1].all_transaction_is_valid());
    assert_eq!(chain.chain[1].data.len(), 4);
    assert_eq!(chain.chain[1].data[0].amount, 10);
    assert_eq!(chain.chain[1].data[1].amount, 20);
    assert_eq!(chain.chain[1].data[2].amount, 30);
    let reward = &chain.chain[1].data[3];
    assert_eq!(reward.from, "");
    assert_eq!(reward.to, "miner1");
    assert_eq!(reward.amount, 50);
    assert!(chain.is_valid_chain());
}

#[test]
fn test_add_transaction_rejects_missing_parties() {
    let mut chain = Chain::new();
    let no_sender = Transaction::new(String::new(), String::from("B"), 1);
    assert_eq!(
        chain.add_transaction(no_sender),
        Err(SubmitError::MalformedTransaction)
    );
    let no_receiver = Transaction::new(String::from("A"), String::new(), 1);
    assert_eq!(
        chain.add_transaction(no_receiver),
        Err(SubmitError::MalformedTransaction)
    );
    assert_eq!(chain.transaction_pool.len(), 0);
}

#[test]
fn test_add_transaction_rejects_bad_signature() {
    let mut chain = Chain::new();
    let unsigned = Transaction::new(String::from("AA"), String::from("BB"), 1);
    assert_eq!(
        chain.add_transaction(unsigned),
        Err(SubmitError::InvalidSignature)
    );
    assert_eq!(chain.transaction_pool.len(), 0);
}

#[test]
fn test_zero_difficulty_always_mines() {
    let mut chain = Chain::with_config(0, 50);
    assert!(chain.mine_transaction_pool(String::from("M")));
    assert_eq!(chain.chain.len(), 2);
    assert!(chain.is_valid_chain());
}

#[test]
fn test_broken_link_is_detected() {
    let mut chain = Chain::with_config(2, 50);
    assert!(chain.mine_transaction_pool(String::from("M")));
    assert!(chain.is_valid_chain());
    chain.chain[1].pre_hash = String::from("bogus");
    assert!(!chain.is_valid_chain());
}

#[test]
fn test_genesis_tamper_is_detected() {
    let mut chain = Chain::new();
    assert!(chain.is_valid_chain());
    chain.chain[0].data[0].amount = 7;
    assert!(!chain.is_valid_chain());
}
