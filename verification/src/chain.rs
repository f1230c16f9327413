//! The chain: an append-only sequence of blocks rooted in a genesis block,
//! a pool of pending transactions, and the validity walk that re-checks
//! every signature, every stored hash and every link.

use vstd::prelude::*;
use crate::block::{all_txs_valid, block_encoding, pow_ok, Block};
use crate::primitives::{sha256_digest, sha256_hex_of};
use crate::transaction::{tx_valid, Transaction};

verus! {

/// Why a submitted transaction was turned away: sender or receiver missing,
/// or a signature that does not check out.
#[derive(Debug, PartialEq, Eq, Structural)]
pub enum SubmitError {
    MalformedTransaction,
    InvalidSignature,
}

/// The ledger: blocks in order (index 0 is genesis), the pending pool, and
/// the fixed mining reward and difficulty.
#[derive(Debug)]
pub struct Chain {
    pub chain: Vec<Block>,
    pub transaction_pool: Vec<Transaction>,
    pub miner_reward: u8,
    pub difficulty: u8,
}

/// Block `i` of the chain passes the validity walk: all its transactions
/// check out, its stored hash is the digest of its own encoding, and its
/// stored previous hash is its predecessor's stored hash.
pub open spec fn block_ok(c: Chain, i: int) -> bool {
    &&& all_txs_valid(c.chain@[i])
    &&& c.chain@[i].hash@ == sha256_hex_of(block_encoding(c.chain@[i]))
    &&& c.chain@[i].pre_hash@ == c.chain@[i - 1].hash@
}

/// Exactly what the validity walk decides: with a lone genesis block, that
/// its stored hash is the digest of its encoding; otherwise, that every
/// block past genesis passes `block_ok`.
pub open spec fn chain_valid(c: Chain) -> bool {
    if c.chain@.len() == 1 {
        c.chain@[0].hash@ == sha256_hex_of(block_encoding(c.chain@[0]))
    } else {
        forall|i: int| 1 <= i < c.chain@.len() ==> block_ok(c, i)
    }
}

/// What every chain built through this crate's operations keeps: it is
/// non-empty, the validity walk succeeds, every mined block meets the
/// difficulty, and everything waiting in the pool checks out.
pub open spec fn chain_wf(c: Chain) -> bool {
    &&& c.chain@.len() >= 1
    &&& chain_valid(c)
    &&& forall|i: int|
        1 <= i < c.chain@.len() ==> pow_ok(#[trigger] c.chain@[i].hash@, c.difficulty as nat)
    &&& forall|j: int|
        0 <= j < c.transaction_pool@.len() ==> tx_valid(#[trigger] c.transaction_pool@[j])
}

/// A well-formed chain always passes its own validity walk.
pub proof fn lemma_wf_chain_is_valid(c: Chain)
    requires
        chain_wf(c),
    ensures
        chain_valid(c),
{
}

proof fn lemma_same_blocks_wf(a: Chain, b: Chain)
    requires
        chain_wf(a),
        b.chain == a.chain,
        b.difficulty == a.difficulty,
        forall|j: int|
            0 <= j < b.transaction_pool@.len() ==> tx_valid(#[trigger] b.transaction_pool@[j]),
    ensures
        chain_wf(b),
{
    if b.chain@.len() != 1 {
        assert forall|i: int| 1 <= i < b.chain@.len() implies block_ok(b, i) by {
            assert(block_ok(a, i));
        }
    }
    assert forall|i: int| 1 <= i < b.chain@.len() implies pow_ok(
        #[trigger] b.chain@[i].hash@,
        b.difficulty as nat,
    ) by {
        assert(pow_ok(a.chain@[i].hash@, a.difficulty as nat));
    }
}

impl Chain {
    /// A chain with the given difficulty and miner reward, holding only the
    /// genesis block: one sentinel transaction, hashed once but not mined,
    /// and an empty pool.
    pub fn with_config(difficulty: u8, miner_reward: u8) -> (c: Chain)
        ensures
            chain_wf(c),
            c.chain@.len() == 1,
            c.transaction_pool@.len() == 0,
            c.difficulty == difficulty,
            c.miner_reward == miner_reward,
            c.chain@[0].data@.len() == 1,
            c.chain@[0].data@[0].from@ == Seq::<char>::empty(),
            c.chain@[0].data@[0].to@ == Seq::<char>::empty(),
            c.chain@[0].data@[0].amount == 0,
            c.chain@[0].data@[0].signature@ == Seq::<char>::empty(),
            c.chain@[0].pre_hash@ == Seq::<char>::empty(),
            c.chain@[0].nonce@ == Seq::<char>::empty(),
    {
        let tran = Transaction::new(String::new(), String::new(), 0);
        let mut data: Vec<Transaction> = Vec::new();
        data.push(tran);
        let mut blk = Block::new(data);
        blk.hash = sha256_digest(blk.to_string_for_hash().as_str());
        let mut chain_vec: Vec<Block> = Vec::new();
        chain_vec.push(blk);
        Chain {
            chain: chain_vec,
            transaction_pool: Vec::new(),
            miner_reward: miner_reward,
            difficulty: difficulty,
        }
    }

    /// A chain with the default difficulty of four leading zeros and the
    /// default miner reward of fifty.
    pub fn new() -> (c: Chain)
        ensures
            chain_wf(c),
            c.chain@.len() == 1,
            c.transaction_pool@.len() == 0,
            c.difficulty == 4,
            c.miner_reward == 50,
            c.chain@[0].data@.len() == 1,
            c.chain@[0].data@[0].from@ == Seq::<char>::empty(),
            c.chain@[0].data@[0].to@ == Seq::<char>::empty(),
            c.chain@[0].data@[0].amount == 0,
            c.chain@[0].data@[0].signature@ == Seq::<char>::empty(),
            c.chain@[0].pre_hash@ == Seq::<char>::empty(),
            c.chain@[0].nonce@ == Seq::<char>::empty(),
    {
        Self::with_config(4, 50)
    }

    /// Accepts a transfer into the pending pool.  A transaction without a
    /// sender or without a receiver is turned away as malformed; one whose
    /// signature does not check out is turned away as invalid; anything
    /// else joins the pool in submission order.
    pub fn add_transaction(&mut self, tran: Transaction) -> (r: Result<(), SubmitError>)
        requires
            chain_wf(*old(self)),
        ensures
            chain_wf(*final(self)),
            final(self).chain == old(self).chain,
            final(self).miner_reward == old(self).miner_reward,
            final(self).difficulty == old(self).difficulty,
            (tran.from@.len() == 0 || tran.to@.len() == 0) ==> r == Result::<
                (),
                SubmitError,
            >::Err(SubmitError::MalformedTransaction) && final(self).transaction_pool == old(
                self,
            ).transaction_pool,
            tran.from@.len() > 0 && tran.to@.len() > 0 && !tx_valid(tran) ==> r == Result::<
                (),
                SubmitError,
            >::Err(SubmitError::InvalidSignature) && final(self).transaction_pool == old(
                self,
            ).transaction_pool,
            tran.from@.len() > 0 && tran.to@.len() > 0 && tx_valid(tran) ==> r == Result::<
                (),
                SubmitError,
            >::Ok(()) && final(self).transaction_pool@ == old(self).transaction_pool@.push(tran),
    {
        if self.from_or_to_missing(&tran) {
            return Err(SubmitError::MalformedTransaction);
        }
        if tran.is_valid_transaction() {
            self.transaction_pool.push(tran);
            proof {
                assert forall|j: int| 0 <= j < self.transaction_pool@.len() implies tx_valid(
                    #[trigger] self.transaction_pool@[j],
                ) by {
                    if j < old(self).transaction_pool@.len() {
                        assert(self.transaction_pool@[j] == old(self).transaction_pool@[j]);
                    }
                }
                lemma_same_blocks_wf(*old(self), *self);
            }
            Ok(())
        } else {
            Err(SubmitError::InvalidSignature)
        }
    }

    fn from_or_to_missing(&self, tran: &Transaction) -> (r: bool)
        ensures
            r == (tran.from@.len() == 0 || tran.to@.len() == 0),
    {
        tran.from.as_str().is_empty() || tran.to.as_str().is_empty()
    }

    /// Links a block to the current tip, hashes it, mines it, and appends
    /// it.  The result says whether the proof-of-work search succeeded; at
    /// difficulty zero it always does, and a block whose search gave up —
    /// which a realistic difficulty never produces — is discarded and the
    /// chain stays as it was.
    pub fn add_block(&mut self, blk: Block) -> (appended: bool)
        requires
            chain_wf(*old(self)),
            all_txs_valid(blk),
        ensures
            chain_wf(*final(self)),
            old(self).difficulty == 0 ==> appended,
            final(self).transaction_pool == old(self).transaction_pool,
            final(self).miner_reward == old(self).miner_reward,
            final(self).difficulty == old(self).difficulty,
            appended ==> {
                &&& final(self).chain@.len() == old(self).chain@.len() + 1
                &&& final(self).chain@.subrange(0, old(self).chain@.len() as int) == old(
                    self,
                ).chain@
                &&& final(self).chain@.last().data@ == blk.data@
                &&& final(self).chain@.last().time_stamp == blk.time_stamp
                &&& final(self).chain@.last().pre_hash@ == old(self).chain@.last().hash@
                &&& final(self).chain@.last().hash@ == sha256_hex_of(
                    block_encoding(final(self).chain@.last()),
                )
                &&& pow_ok(final(self).chain@.last().hash@, old(self).difficulty as nat)
            },
            !appended ==> final(self).chain == old(self).chain,
    {
        let mut blk = blk;
        let tip = self.chain.len() - 1;
        blk.pre_hash = self.chain[tip].hash.clone();
        blk.hash = sha256_digest(blk.to_string_for_hash().as_str());
        let mined = blk.mine(self.difficulty);
        if !mined {
            return false;
        }
        self.chain.push(blk);
        proof {
            let oldc = old(self).chain@;
            let newc = self.chain@;
            let b = newc.last();
            assert(newc.subrange(0, oldc.len() as int) =~= oldc);
            assert(b.hash@ == sha256_hex_of(block_encoding(b)));
            assert forall|i: int| 1 <= i < newc.len() implies block_ok(*self, i) by {
                if i < oldc.len() {
                    assert(block_ok(*old(self), i));
                    assert(newc[i] == oldc[i]);
                    assert(newc[i - 1] == oldc[i - 1]);
                } else {
                    assert(b.pre_hash@ == oldc.last().hash@);
                }
            }
            assert forall|i: int| 1 <= i < newc.len() implies pow_ok(
                #[trigger] newc[i].hash@,
                self.difficulty as nat,
            ) by {
                if i < oldc.len() {
                    assert(pow_ok(oldc[i].hash@, old(self).difficulty as nat));
                }
            }
        }
        true
    }

    /// Mines the whole pending pool into one new block.  A reward transfer
    /// to the miner is appended to the batch first (unless the miner
    /// identity is empty, which makes the reward invalid and it is left
    /// out); the pool is emptied either way.  The result says whether the
    /// proof-of-work search succeeded and the block was appended; at
    /// difficulty zero it always did.
    pub fn mine_transaction_pool(&mut self, miner: String) -> (mined: bool)
        requires
            chain_wf(*old(self)),
        ensures
            chain_wf(*final(self)),
            old(self).difficulty == 0 ==> mined,
            final(self).transaction_pool@.len() == 0,
            final(self).miner_reward == old(self).miner_reward,
            final(self).difficulty == old(self).difficulty,
            !mined ==> final(self).chain == old(self).chain,
            mined ==> {
                &&& final(self).chain@.len() == old(self).chain@.len() + 1
                &&& final(self).chain@.subrange(0, old(self).chain@.len() as int) == old(
                    self,
                ).chain@
                &&& pow_ok(final(self).chain@.last().hash@, old(self).difficulty as nat)
            },
            mined && miner@.len() > 0 ==> {
                let txs = final(self).chain@.last().data@;
                &&& txs.len() == old(self).transaction_pool@.len() + 1
                &&& txs.take(old(self).transaction_pool@.len() as int) == old(
                    self,
                ).transaction_pool@
                &&& txs.last().from@ == Seq::<char>::empty()
                &&& txs.last().to@ == miner@
                &&& txs.last().amount == old(self).miner_reward as u32
                &&& txs.last().signature@ == Seq::<char>::empty()
            },
            mined && miner@.len() == 0 ==> final(self).chain@.last().data@ == old(
                self,
            ).transaction_pool@,
    {
        let tran = Transaction::new(String::new(), miner, self.miner_reward as u32);
        if tran.is_valid_transaction() {
            self.transaction_pool.push(tran);
        }
        let mut pool: Vec<Transaction> = Vec::new();
        core::mem::swap(&mut self.transaction_pool, &mut pool);
        let blk = Block::new(pool);
        proof {
            assert forall|i: int| 0 <= i < blk.data@.len() implies tx_valid(
                #[trigger] blk.data@[i],
            ) by {
                if i < old(self).transaction_pool@.len() {
                    assert(blk.data@[i] == old(self).transaction_pool@[i]);
                }
            }
            lemma_same_blocks_wf(*old(self), *self);
        }
        let mined = self.add_block(blk);
        proof {
            if mined && old(self).transaction_pool@.len() < self.chain@.last().data@.len() {
                assert(self.chain@.last().data@.take(old(self).transaction_pool@.len() as int)
                    =~= old(self).transaction_pool@);
            }
        }
        mined
    }

    /// The validity walk, deciding exactly `chain_valid`.  A lone genesis
    /// block has its hash recomputed and compared; otherwise every block
    /// past genesis is checked — transactions, stored hash against the
    /// recomputed digest, link against the predecessor's stored hash — and
    /// the walk stops at the first failure.
    pub fn is_valid_chain(&self) -> (r: bool)
        ensures
            r == chain_valid(*self),
    {
        if self.chain.len() == 1 {
            let d = sha256_digest(self.chain[0].to_string_for_hash().as_str());
            return self.chain[0].hash.eq(&d);
        }
        let mut iter: usize = 1;
        while iter < self.chain.len()
            invariant
                1 <= iter,
                forall|k: int| 1 <= k < iter ==> block_ok(*self, k),
            decreases self.chain@.len() - iter,
        {
            let blk_tmp = &self.chain[iter];
            if !blk_tmp.all_transaction_is_valid() {
                proof {
                    assert(!block_ok(*self, iter as int));
                }
                return false;
            }
            let d = sha256_digest(blk_tmp.to_string_for_hash().as_str());
            if !blk_tmp.hash.eq(&d) {
                proof {
                    assert(!block_ok(*self, iter as int));
                }
                return false;
            }
            if !blk_tmp.pre_hash.eq(&self.chain[iter - 1].hash) {
                proof {
                    assert(!block_ok(*self, iter as int));
                }
                return false;
            }
            iter = iter + 1;
        }
        true
    }
}

/// Replacing a block's stored previous-hash link with anything that no
/// longer matches its predecessor's stored hash makes the validity walk
/// fail.
pub proof fn lemma_broken_link_detected(c: Chain, i: int)
    requires
        c.chain@.len() >= 2,
        1 <= i < c.chain@.len(),
        c.chain@[i].pre_hash@ != c.chain@[i - 1].hash@,
    ensures
        !chain_valid(c),
{
    assert(!block_ok(c, i));
}

/// Tampering with one transaction's amount inside an already-appended block
/// makes the validity walk fail, provided the digest of the tampered
/// block's encoding differs from the digest of the untampered block's — the only
/// escape would be a SHA-256 collision between the two encodings.
pub proof fn lemma_tampered_amount_detected(c: Chain, t: Chain, i: int, j: int)
    requires
        chain_valid(c),
        c.chain@.len() >= 2,
        1 <= i < c.chain@.len(),
        0 <= j < c.chain@[i].data@.len(),
        t.chain@.len() == c.chain@.len(),
        forall|k: int| 0 <= k < c.chain@.len() && k != i ==> t.chain@[k] == c.chain@[k],
        t.chain@[i].data@.len() == c.chain@[i].data@.len(),
        forall|l: int|
            0 <= l < c.chain@[i].data@.len() && l != j ==> t.chain@[i].data@[l] == c.chain@[i].data@[l],
        t.chain@[i].data@[j].from == c.chain@[i].data@[j].from,
        t.chain@[i].data@[j].to == c.chain@[i].data@[j].to,
        t.chain@[i].data@[j].signature == c.chain@[i].data@[j].signature,
        t.chain@[i].data@[j].amount != c.chain@[i].data@[j].amount,
        t.chain@[i].pre_hash == c.chain@[i].pre_hash,
        t.chain@[i].time_stamp == c.chain@[i].time_stamp,
        t.chain@[i].nonce == c.chain@[i].nonce,
        t.chain@[i].hash == c.chain@[i].hash,
        sha256_hex_of(block_encoding(t.chain@[i])) != sha256_hex_of(block_encoding(c.chain@[i])),
    ensures
        !chain_valid(t),
{
    assert(block_ok(c, i));
    assert(t.chain@[i].hash@ == sha256_hex_of(block_encoding(c.chain@[i])));
    assert(!block_ok(t, i));
}

} // verus!
