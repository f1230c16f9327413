//! The crate's trusted boundary: the hash digest, the Ed25519 signature
//! primitives, the random nonce draw and the clock.  Everything else in the
//! crate is verified against the contracts stated here.

use vstd::prelude::*;

verus! {

/// The SHA-256 digest of a text's bytes, rendered as the 64-character
/// lowercase hexadecimal string the `sha256` crate produces; a pure function
/// of the input.
pub uninterp spec fn sha256_hex_of(s: Seq<char>) -> Seq<char>;

/// Relies on `sha256::digest` (on `&str`): it hashes the string's bytes with
/// SHA-256 and renders the 32-byte digest as 64 hexadecimal characters,
/// depending on the input alone.
#[verifier::external_body]
pub(crate) fn sha256_digest(s: &str) -> (r: String)
    ensures
        r@ == sha256_hex_of(s@),
        r@.len() == 64,
{
    sha256::digest(s)
}

/// The Ed25519 signature over a message's bytes under a 64-byte secret key,
/// as `crypto::ed25519::signature` computes it; Ed25519 signing is
/// deterministic, so this depends on the arguments alone.
pub uninterp spec fn ed25519_sig_of(msg: Seq<char>, secret_key: Seq<u8>) -> Seq<u8>;

/// Relies on `crypto::ed25519::signature`: deterministic Ed25519 signing of
/// the message's bytes, returning 64 bytes.  The key must be the 64-byte
/// expanded secret key, since the function slices fixed ranges out of it.
#[verifier::external_body]
pub(crate) fn ed25519_sign(msg: &str, secret_key: &[u8]) -> (r: Vec<u8>)
    requires
        secret_key@.len() == 64,
    ensures
        r@ == ed25519_sig_of(msg@, secret_key@),
        r@.len() == 64,
{
    crypto::ed25519::signature(msg.as_bytes(), secret_key).to_vec()
}

/// Whether an Ed25519 signature checks out against a message's bytes and a
/// 32-byte public key, as `crypto::ed25519::verify` decides it; a pure
/// function of its arguments.
pub uninterp spec fn ed25519_verify_ok(msg: Seq<char>, public_key: Seq<u8>, sig: Seq<u8>) -> bool;

/// Relies on `crypto::ed25519::verify`: checks the signature against the
/// message's bytes and the public key, returning false rather than failing
/// on values that do not verify.  The lengths are required because the
/// function slices fixed ranges out of both buffers.
#[verifier::external_body]
pub(crate) fn ed25519_verify(msg: &str, public_key: &[u8], sig: &[u8]) -> (r: bool)
    requires
        public_key@.len() == 32,
        sig@.len() == 64,
    ensures
        r == ed25519_verify_ok(msg@, public_key@, sig@),
{
    crypto::ed25519::verify(msg.as_bytes(), public_key, sig)
}

/// Relies on `rand::Rng::gen_range` over `thread_rng`: a draw from the
/// half-open range below `u64::MAX`.  Nothing is assumed beyond the range;
/// two draws may differ.
#[verifier::external_body]
pub(crate) fn random_nonce() -> (r: u64)
    ensures
        r < u64::MAX,
{
    rand::Rng::gen_range(&mut rand::thread_rng(), 0u64..u64::MAX)
}

/// Relies on `std::time::SystemTime`: the clock reading as nanoseconds since
/// the Unix epoch.  Nothing is assumed of the value; the call fails only if
/// the clock reads before the epoch.
#[verifier::external_body]
pub(crate) fn get_time_stamp() -> (r: i64)
{
    let since_the_epoch = std::time::SystemTime::now()
        .duration_since(std::time::UNIX_EPOCH)
        .expect("Time went backwards");
    since_the_epoch.as_nanos() as i64
}

} // verus!
