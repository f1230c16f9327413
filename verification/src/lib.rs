//! A small proof-of-work ledger: signed transactions, batched into blocks
//! that are mined against a leading-zero hash predicate, chained by stored
//! hashes, with a whole-chain validity walk.

pub mod codec;
pub mod hex;
pub mod primitives;
pub mod transaction;
pub mod block;
pub mod chain;
