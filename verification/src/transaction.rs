//! A single transfer record: sender, receiver, amount and an optional
//! signature, with canonical encoding, signing and self-validation.

use vstd::prelude::*;
use vstd::string::StringExecFns;
use crate::codec::{dec_rep, length_prefixed, length_prefixed_string, u64_to_string};
use crate::hex::{
    check_hex_decodable, hex_decodable, hex_decode64, hex_upper_of, string_to_u8, u8_to_string,
    vec_prefix,
};
use crate::primitives::{
    ed25519_sig_of, ed25519_sign, ed25519_verify, ed25519_verify_ok, sha256_digest, sha256_hex_of,
};

verus! {

/// One transfer.  An empty `from` with a non-empty `to` marks a mint
/// (reward) transaction; both fields empty mark the genesis sentinel.  The
/// sender identity doubles as the uppercase hexadecimal encoding of the
/// sender's public key.
#[derive(Debug)]
pub struct Transaction {
    pub from: String,
    pub to: String,
    pub amount: u32,
    pub signature: String,
}

/// The canonical text a transaction is hashed and signed over: sender,
/// receiver and amount, each as a length-prefixed field.  The signature is
/// deliberately left out, so signing does not change the encoding.
pub open spec fn tx_encoding(t: Transaction) -> Seq<char> {
    length_prefixed(t.from@) + length_prefixed(t.to@) + length_prefixed(
        dec_rep(t.amount as nat),
    )
}

/// What it means for a transaction to check out.  A mint transaction (empty
/// sender, some receiver) is always valid.  Anything else needs a signature
/// whose hexadecimal decoding verifies, under the public key decoded from
/// `from`, against the digest of the canonical encoding; a missing signature
/// or a field the decoder rejects makes it invalid.
pub open spec fn tx_valid(t: Transaction) -> bool {
    if t.from@.len() == 0 && t.to@.len() > 0 {
        true
    } else if t.signature@.len() == 0 {
        false
    } else if !hex_decodable(t.from@) || !hex_decodable(t.signature@) {
        false
    } else {
        ed25519_verify_ok(
            sha256_hex_of(tx_encoding(t)),
            hex_decode64(t.from@).take(32),
            hex_decode64(t.signature@),
        )
    }
}

impl Transaction {
    /// A fresh, unsigned transaction.
    pub fn new(from_arg: String, to_arg: String, amount_arg: u32) -> (t: Transaction)
        ensures
            t.from == from_arg,
            t.to == to_arg,
            t.amount == amount_arg,
            t.signature@ == Seq::<char>::empty(),
    {
        Transaction { from: from_arg, to: to_arg, amount: amount_arg, signature: String::new() }
    }

    /// The canonical encoding fed to the digest.
    pub fn to_string(&self) -> (r: String)
        ensures
            r@ == tx_encoding(*self),
    {
        let mut r = length_prefixed_string(self.from.as_str());
        r.append(length_prefixed_string(self.to.as_str()).as_str());
        r.append(length_prefixed_string(u64_to_string(self.amount as u64).as_str()).as_str());
        r
    }

    /// Signs the digest of the canonical encoding with the 64-byte expanded
    /// secret key and stores the signature as uppercase hexadecimal.
    pub fn sign(&mut self, private_key: &[u8])
        requires
            private_key@.len() == 64,
        ensures
            final(self).from == old(self).from,
            final(self).to == old(self).to,
            final(self).amount == old(self).amount,
            final(self).signature@ == hex_upper_of(
                ed25519_sig_of(sha256_hex_of(tx_encoding(*old(self))), private_key@),
            ),
    {
        let digest = sha256_digest(self.to_string().as_str());
        let sig = ed25519_sign(digest.as_str(), private_key);
        self.signature = u8_to_string(sig.as_slice());
    }

    /// Decides `tx_valid`: recomputes the digest and verifies the stored
    /// signature against the public key carried in `from` (only the first 32
    /// decoded bytes of `from` are the key).
    pub fn is_valid_transaction(&self) -> (r: bool)
        ensures
            r == tx_valid(*self),
    {
        if self.from.as_str().is_empty() && !self.to.as_str().is_empty() {
            return true;
        }
        if self.signature.as_str().is_empty() {
            return false;
        }
        if !check_hex_decodable(self.from.as_str()) || !check_hex_decodable(
            self.signature.as_str(),
        ) {
            return false;
        }
        let digest = sha256_digest(self.to_string().as_str());
        let decoded_from = string_to_u8(self.from.as_str());
        let public_key = vec_prefix(&decoded_from, 32);
        let sig = string_to_u8(self.signature.as_str());
        ed25519_verify(digest.as_str(), public_key.as_slice(), sig.as_slice())
    }
}

/// For a transfer that carries its signature the way `sign` stores it — as
/// the uppercase hexadecimal of 64 signature bytes — validity is exactly
/// the verifier's verdict on those very bytes: carrying the signature
/// through text loses nothing.  With `sign`'s own contract this pins the
/// round trip down to the Ed25519 primitive itself.
pub proof fn lemma_signed_transaction_validity(t: Transaction, sig_bytes: Seq<u8>)
    requires
        t.from@.len() > 0,
        hex_decodable(t.from@),
        sig_bytes.len() == 64,
        t.signature@ == hex_upper_of(sig_bytes),
    ensures
        tx_valid(t) == ed25519_verify_ok(
            sha256_hex_of(tx_encoding(t)),
            hex_decode64(t.from@).take(32),
            sig_bytes,
        ),
{
    crate::hex::lemma_hex_upper_len(sig_bytes);
    crate::hex::lemma_hex_round_trip(sig_bytes);
    assert(hex_decode64(t.signature@) =~= sig_bytes);
}

/// A mint transaction — empty sender, some receiver — is valid whatever its
/// signature holds.
pub proof fn lemma_mint_transaction_valid(t: Transaction)
    requires
        t.from@.len() == 0,
        t.to@.len() > 0,
    ensures
        tx_valid(t),
{
}

} // verus!
