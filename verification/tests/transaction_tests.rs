use crypto::ed25519::keypair;
use powchain::hex::u8_to_string;
use powchain::transaction::Transaction;

fn test_keypair(seed: &[u8; 32]) -> (Vec<u8>, String) {
    let (private_key, public_key) = keypair(seed);
    (private_key.to_vec(), u8_to_string(&public_key))
}

#[test]
fn test_mint_transaction_valid_without_signature() {
    let t = Transaction::new(String::new(), String::from("M"), 5);
    assert!(t.is_valid_transaction());
}

#[test]
fn test_sentinel_transaction_invalid_outside_genesis() {
    let t = Transaction::new(String::new(), String::new(), 0);
    assert!(!t.is_valid_transaction());
}

#[test]
fn test_unsigned_transfer_invalid() {
    let t = Transaction::new(String::from("AA"), String::from("BB"), 10);
    assert!(!t.is_valid_transaction());
}

#[test]
fn test_non_hex_sender_invalid_without_panic() {
    let mut t = Transaction::new(String::from("not hex!"), String::from("BB"), 10);
    t.signature = String::from("00FF");
    assert!(!t.is_valid_transaction());
}

#[test]
fn test_sign_then_verify_valid() {
    let (private_key, sender) = test_keypair(b"qwertyuiopasdfghjklzxcvbnm012345");
    let (_, receiver) = test_keypair(b"012345qwertyuiopasdfghjklzxcvbnm");
    let mut t = Transaction::new(sender, receiver, 10);
    t.sign(&private_key);
    assert!(t.is_valid_transaction());
}

#[test]
fn test_sign_with_wrong_key_invalid() {
    let (_, sender) = test_keypair(b"qwertyuiopasdfghjklzxcvbnm012345");
    let (wrong_private_key, _) = test_keypair(b"012345qwertyuiopasdfghjklzxcvbnm");
    let mut t = Transaction::new(sender, String::from("BB"), 10);
    t.sign(&wrong_private_key);
    assert!(!t.is_valid_transaction());
}

#[test]
fn test_amount_tampered_after_signing_invalid() {
    let (private_key, sender) = test_keypair(b"qwertyuiopasdfghjklzxcvbnm012345");
    let mut t = Transaction::new(sender, String::from("BB"), 10);
    t.sign(&private_key);
    assert!(t.is_valid_transaction());
    t.amount = 999;
    assert!(!t.is_valid_transaction());
}

#[test]
fn test_to_string_canonical_encoding() {
    let t = Transaction::new(String::from("ab"), String::from("cd"), 7);
    assert_eq!(t.to_string(), "2:ab2:cd1:7");
    let u = Transaction::new(String::new(), String::from("M"), 50);
    assert_eq!(u.to_string(), "0:1:M2:50");
}
