//! A block: an ordered batch of transactions plus the previous block's
//! hash, a timestamp, a nonce and its own hash, with the proof-of-work
//! search that makes the hash start with the required zeros.

use vstd::prelude::*;
use vstd::string::StringExecFns;
use vstd::string::StrSliceExecFns;
use crate::codec::{dec_rep_int, i64_to_string, length_prefixed, length_prefixed_string,
    u64_to_string};
use crate::primitives::{get_time_stamp, random_nonce, sha256_digest, sha256_hex_of};
use crate::transaction::{tx_encoding, tx_valid, Transaction};

verus! {

/// One block of the chain.  `pre_hash` is empty only for the genesis block;
/// `nonce` and `hash` are empty until the block is hashed and mined.
#[derive(Debug)]
pub struct Block {
    pub data: Vec<Transaction>,
    pub pre_hash: String,
    pub time_stamp: i64,
    pub nonce: String,
    pub hash: String,
}

/// The canonical encodings of a sequence of transactions, concatenated in
/// order.
pub open spec fn txs_encoding(s: Seq<Transaction>) -> Seq<char>
    decreases s.len(),
{
    if s.len() == 0 {
        Seq::empty()
    } else {
        txs_encoding(s.drop_last()) + tx_encoding(s.last())
    }
}

/// The canonical text a block is hashed over: its transactions in insertion
/// order, then the previous hash, the timestamp and the nonce, each as a
/// length-prefixed field.
pub open spec fn block_encoding(b: Block) -> Seq<char> {
    txs_encoding(b.data@) + length_prefixed(b.pre_hash@) + length_prefixed(
        dec_rep_int(b.time_stamp as int),
    ) + length_prefixed(b.nonce@)
}

/// The proof-of-work predicate: the hash's first `d` characters are all '0'.
pub open spec fn pow_ok(hash: Seq<char>, d: nat) -> bool {
    d <= hash.len() && (forall|i: int| 0 <= i < d ==> hash[i] == '0')
}

/// Every transaction of the block checks out.
pub open spec fn all_txs_valid(b: Block) -> bool {
    forall|i: int| 0 <= i < b.data@.len() ==> tx_valid(#[trigger] b.data@[i])
}

/// The string a mined hash must start with: `difficult` zero characters.
pub fn get_answer(difficult: u8) -> (r: String)
    ensures
        r@ == Seq::new(difficult as nat, |i: int| '0'),
{
    let mut answer = String::new();
    let mut i: u8 = 0;
    while i < difficult
        invariant
            i <= difficult,
            answer@ == Seq::new(i as nat, |k: int| '0'),
        decreases difficult - i,
    {
        answer.append("0");
        i = i + 1;
        proof {
            reveal_strlit("0");
            assert(answer@ =~= Seq::new(i as nat, |k: int| '0'));
        }
    }
    answer
}

impl Block {
    /// A fresh block over the given batch, timestamped now, with empty
    /// previous hash, nonce and hash.
    pub fn new(data_arg: Vec<Transaction>) -> (b: Block)
        ensures
            b.data@ == data_arg@,
            b.pre_hash@ == Seq::<char>::empty(),
            b.nonce@ == Seq::<char>::empty(),
            b.hash@ == Seq::<char>::empty(),
    {
        Block {
            data: data_arg,
            pre_hash: String::new(),
            time_stamp: get_time_stamp(),
            nonce: String::new(),
            hash: String::new(),
        }
    }

    /// The canonical encoding fed to the digest.
    pub fn to_string_for_hash(&self) -> (r: String)
        ensures
            r@ == block_encoding(*self),
    {
        let mut data_string = String::new();
        let mut i: usize = 0;
        while i < self.data.len()
            invariant
                i <= self.data@.len(),
                data_string@ == txs_encoding(self.data@.take(i as int)),
            decreases self.data@.len() - i,
        {
            data_string.append(self.data[i].to_string().as_str());
            i = i + 1;
            proof {
                assert(self.data@.take(i as int).drop_last() =~= self.data@.take(i as int - 1));
                assert(self.data@.take(i as int).last() == self.data@[i as int - 1]);
                assert(data_string@ =~= txs_encoding(self.data@.take(i as int)));
            }
        }
        proof {
            assert(self.data@.take(self.data@.len() as int) =~= self.data@);
        }
        data_string.append(length_prefixed_string(self.pre_hash.as_str()).as_str());
        data_string.append(length_prefixed_string(i64_to_string(self.time_stamp).as_str()).as_str());
        data_string.append(length_prefixed_string(self.nonce.as_str()).as_str());
        proof {
            assert(data_string@ =~= block_encoding(*self));
        }
        data_string
    }

    /// Whether the stored hash begins with the required zeros, decided by
    /// comparing its prefix against the answer string.
    fn has_answer_prefix(&self, difficult: u8) -> (r: bool)
        ensures
            r == pow_ok(self.hash@, difficult as nat),
    {
        let s = self.hash.as_str();
        let n = s.unicode_len();
        let d = difficult as usize;
        if n < d {
            return false;
        }
        let answer = get_answer(difficult);
        let prefix = String::from_str(s.substring_char(0, d));
        let r = prefix.eq(&answer);
        proof {
            if prefix@ == answer@ {
                assert forall|i: int| 0 <= i < d implies self.hash@[i] == '0' by {
                    assert(self.hash@[i] == prefix@[i]);
                }
            } else {
                if pow_ok(self.hash@, difficult as nat) {
                    assert(prefix@ =~= answer@);
                }
            }
        }
        r
    }

    /// The proof-of-work search.  Starting from a random nonce, each try
    /// writes the nonce in decimal, recomputes the hash over the canonical
    /// encoding, and stops as soon as the hash begins with `difficult`
    /// zeros; a block whose stored hash already qualifies is left exactly as
    /// it was, and the search then reports success at once.  Otherwise the
    /// search walks the whole 64-bit nonce space once before giving up, so
    /// in practice it ends only by success; the result says — if and only
    /// if — whether the final hash meets the difficulty.  The batch, the
    /// previous hash and the timestamp never change, and once anything was
    /// recomputed the stored hash equals the digest of the block's final
    /// encoding.
    pub fn mine(&mut self, difficult: u8) -> (mined: bool)
        ensures
            final(self).data@ == old(self).data@,
            final(self).pre_hash == old(self).pre_hash,
            final(self).time_stamp == old(self).time_stamp,
            mined == pow_ok(final(self).hash@, difficult as nat),
            pow_ok(old(self).hash@, difficult as nat) ==> mined && *final(self) == *old(self),
            !pow_ok(old(self).hash@, difficult as nat) ==> final(self).hash@ == sha256_hex_of(
                block_encoding(*final(self)),
            ),
    {
        let mut nonce_val: u64 = random_nonce();
        let mut attempts: u64 = 0;
        let mut mined = self.has_answer_prefix(difficult);
        while !mined && attempts < u64::MAX
            invariant
                self.data@ == old(self).data@,
                self.pre_hash == old(self).pre_hash,
                self.time_stamp == old(self).time_stamp,
                mined == pow_ok(self.hash@, difficult as nat),
                pow_ok(old(self).hash@, difficult as nat) ==> *self == *old(self),
                attempts == 0 ==> *self == *old(self),
                attempts > 0 ==> self.hash@ == sha256_hex_of(block_encoding(*self)),
            decreases u64::MAX - attempts,
        {
            self.nonce = u64_to_string(nonce_val);
            self.hash = sha256_digest(self.to_string_for_hash().as_str());
            nonce_val = if nonce_val == u64::MAX {
                0
            } else {
                nonce_val + 1
            };
            attempts = attempts + 1;
            mined = self.has_answer_prefix(difficult);
        }
        mined
    }

    /// Walks the batch and reports whether every transaction checks out,
    /// stopping at the first that does not.
    pub fn all_transaction_is_valid(&self) -> (r: bool)
        ensures
            r == all_txs_valid(*self),
    {
        let mut i: usize = 0;
        while i < self.data.len()
            invariant
                i <= self.data@.len(),
                forall|k: int| 0 <= k < i ==> tx_valid(#[trigger] self.data@[k]),
            decreases self.data@.len() - i,
        {
            if !self.data[i].is_valid_transaction() {
                return false;
            }
            i = i + 1;
        }
        true
    }
}

} // verus!
