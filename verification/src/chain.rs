//! The chain: sealed blocks, the pool of pending transactions and the one
//! block that is being mined.

use crate::block::{lemma_sealed_with_is_sealed, zero_hash, Block, BlockView, Timestamp};
use crate::digest::{has_leading_zeros, DIGEST_SIZE};
use crate::mining::{
    find_nonce_in, is_first_accepted, lemma_zero_complexity_accepts, none_accepted,
    nonce_accepted, nonce_digest, ProofOfWork, NONCE_LIMIT,
};
use crate::pool::{
    insert_ordered, lemma_batch_is_heaviest, lemma_schedule_keeps_order, pool_batch, pool_ordered,
    pool_remainder, pool_with, take_batch, BLOCK_TRANSACTIONS_SIZE,
};
use crate::transaction::Transaction;
use vstd::prelude::*;

verus! {

/// The failure of a mining cycle: no nonce below `NONCE_LIMIT` is accepted.
/// The block that was being mined stays where it is.
#[derive(Debug, Clone, Copy, PartialEq, Eq)]
pub struct MiningExhausted;

/// What a chain holds, as mathematical values.
pub struct ChainView {
    /// The sealed blocks, first block first.
    pub blocks: Seq<BlockView>,
    /// The number of leading zero bytes that a sealing digest must have.
    pub complexity: usize,
    /// The pending transactions, in ascending order of weight.
    pub pool: Seq<Transaction>,
    /// The block that is being mined, if any.
    pub candidate: Option<BlockView>,
}

/// The views of the blocks, in order.
pub open spec fn block_views(blocks: Seq<Block>) -> Seq<BlockView> {
    blocks.map_values(|block: Block| block@)
}

/// The hash to which the block at `index` must link: that of the block before
/// it, or zero for the first block.
pub open spec fn predecessor_hash(blocks: Seq<BlockView>, index: int) -> Seq<u8> {
    if index <= 0 {
        zero_hash()
    } else {
        blocks[index - 1].hash
    }
}

impl ChainView {
    /// The chain without blocks, pending transactions or a block in mining.
    pub open spec fn empty(complexity: usize) -> ChainView {
        ChainView { blocks: Seq::empty(), complexity, pool: Seq::empty(), candidate: None }
    }

    /// The hash to which the next block must link.
    pub open spec fn tip_hash(self) -> Seq<u8> {
        predecessor_hash(self.blocks, self.blocks.len() as int)
    }

    /// What holds of every chain: the complexity is at most the size of a
    /// digest; the pool is ordered; every sealed block carries the digest of
    /// its own fields and links to the block before it; a block in mining is
    /// unsealed, links to the last sealed block and bundles no more than one
    /// batch.
    pub open spec fn wf(self) -> bool {
        &&& self.complexity <= DIGEST_SIZE
        &&& pool_ordered(self.pool)
        &&& forall|i: int| 0 <= i < self.blocks.len() ==> (#[trigger] self.blocks[i]).is_sealed()
        &&& forall|i: int|
            0 <= i < self.blocks.len() ==> (#[trigger] self.blocks[i]).previous_hash
                == predecessor_hash(self.blocks, i)
        &&& self.candidate matches Some(candidate) ==> {
            &&& candidate.is_unsealed()
            &&& candidate.previous_hash == self.tip_hash()
            &&& candidate.transactions.len() <= BLOCK_TRANSACTIONS_SIZE
        }
    }

    /// The chain after `transaction` has been scheduled.
    pub open spec fn schedule(self, transaction: Transaction) -> ChainView {
        ChainView { pool: pool_with(self.pool, transaction), ..self }
    }

    /// The block that is assembled at `now` where none is being mined.
    pub open spec fn fresh_candidate(self, now: Timestamp) -> BlockView {
        BlockView {
            timestamp: now,
            hash: zero_hash(),
            previous_hash: self.tip_hash(),
            transactions: pool_batch(self.pool),
            nonce: 0,
        }
    }

    /// The chain once a block is being mined: unchanged where one is already,
    /// else with the batch moved from the pool into a fresh block.
    pub open spec fn with_candidate(self, now: Timestamp) -> ChainView {
        if self.candidate is Some {
            self
        } else {
            ChainView {
                pool: pool_remainder(self.pool),
                candidate: Some(self.fresh_candidate(now)),
                ..self
            }
        }
    }

    /// The chain after the block in mining has been sealed with `nonce` and
    /// appended.
    pub open spec fn seal(self, nonce: u64) -> ChainView
        recommends
            self.candidate is Some,
    {
        ChainView {
            blocks: self.blocks.push(self.candidate->0.sealed_with(nonce)),
            candidate: None,
            ..self
        }
    }

    /// Whether `sealed` and `after` are the outcome of a mining cycle on this
    /// chain that starts at `now` and tries the nonces from `start` up to, but
    /// not including, `end`. The block to mine is the one in mining, or one
    /// assembled at `now`. The cycle succeeds exactly where one of the nonces
    /// is accepted: the first such nonce seals the block, which is appended.
    /// Else the cycle fails and the block stays in mining.
    pub open spec fn mined(
        self,
        now: Timestamp,
        start: u64,
        end: u64,
        sealed: Result<BlockView, MiningExhausted>,
        after: ChainView,
    ) -> bool {
        let ready = self.with_candidate(now);
        let candidate = ready.candidate->0;
        match sealed {
            Ok(block) => {
                &&& is_first_accepted(
                    candidate.preimage(),
                    ready.complexity as nat,
                    start,
                    end,
                    block.nonce,
                )
                &&& block == candidate.sealed_with(block.nonce)
                &&& after == ready.seal(block.nonce)
            },
            Err(_) => {
                &&& none_accepted(candidate.preimage(), ready.complexity as nat, start, end)
                &&& after == ready
            },
        }
    }
}

/// The outcome of a mining cycle with the sealed block as mathematical values.
pub open spec fn outcome_view(sealed: Result<&Block, MiningExhausted>) -> Result<
    BlockView,
    MiningExhausted,
> {
    match sealed {
        Ok(block) => Ok(block@),
        Err(exhausted) => Err(exhausted),
    }
}

impl ChainView {
    /// The chain after the transactions have been scheduled one after the
    /// other, the first of the sequence first.
    pub open spec fn schedule_all(self, transactions: Seq<Transaction>) -> ChainView
        decreases transactions.len(),
    {
        if transactions.len() == 0 {
            self
        } else {
            self.schedule_all(transactions.drop_last()).schedule(transactions.last())
        }
    }
}

/// Scheduling a transaction whose weight is a number keeps a chain well
/// formed; in particular the pool stays in ascending order of weight.
pub proof fn lemma_schedule_keeps_wf(chain: ChainView, transaction: Transaction)
    requires
        chain.wf(),
        transaction.is_orderable(),
    ensures
        chain.schedule(transaction).wf(),
        pool_ordered(chain.schedule(transaction).pool),
{
    lemma_schedule_keeps_order(chain.pool, transaction);
}

/// Whatever transactions are scheduled, in whatever order, the pool is in
/// ascending order of weight after each of them.
pub proof fn lemma_pool_stays_ordered(chain: ChainView, transactions: Seq<Transaction>)
    requires
        chain.wf(),
        forall|i: int| 0 <= i < transactions.len() ==> (#[trigger] transactions[i]).is_orderable(),
    ensures
        forall|count: int|
            0 <= count <= transactions.len() ==> {
                &&& (#[trigger] chain.schedule_all(transactions.subrange(0, count))).wf()
                &&& pool_ordered(chain.schedule_all(transactions.subrange(0, count)).pool)
            },
{
    assert forall|count: int| 0 <= count <= transactions.len() implies {
        &&& (#[trigger] chain.schedule_all(transactions.subrange(0, count))).wf()
        &&& pool_ordered(chain.schedule_all(transactions.subrange(0, count)).pool)
    } by {
        lemma_schedule_all_keeps_wf(chain, transactions.subrange(0, count));
    }
}

/// Scheduling a sequence of transactions whose weights are numbers keeps a
/// chain well formed.
pub proof fn lemma_schedule_all_keeps_wf(chain: ChainView, transactions: Seq<Transaction>)
    requires
        chain.wf(),
        forall|i: int| 0 <= i < transactions.len() ==> (#[trigger] transactions[i]).is_orderable(),
    ensures
        chain.schedule_all(transactions).wf(),
    decreases transactions.len(),
{
    if transactions.len() > 0 {
        let front = transactions.drop_last();
        assert forall|i: int| 0 <= i < front.len() implies (#[trigger] front[i]).is_orderable() by {
            assert(front[i] == transactions[i]);
        }
        lemma_schedule_all_keeps_wf(chain, front);
        lemma_schedule_keeps_wf(chain.schedule_all(front), transactions.last());
    }
}

/// Assembling a block keeps a chain well formed.
pub proof fn lemma_with_candidate_keeps_wf(chain: ChainView, now: Timestamp)
    requires
        chain.wf(),
    ensures
        chain.with_candidate(now).wf(),
        chain.with_candidate(now).candidate is Some,
{
    lemma_batch_is_heaviest(chain.pool);
}

/// With `BLOCK_TRANSACTIONS_SIZE` pending transactions or more and no block
/// in mining, assembling a block moves exactly the last
/// `BLOCK_TRANSACTIONS_SIZE` of them into it. The others stay in the pool, in
/// ascending order of weight, and none of them outweighs a transaction of the
/// block.
pub proof fn lemma_full_batch_is_drained(chain: ChainView, now: Timestamp)
    requires
        chain.wf(),
        chain.candidate is None,
        chain.pool.len() >= BLOCK_TRANSACTIONS_SIZE,
    ensures
        ({
            let cut = chain.pool.len() - BLOCK_TRANSACTIONS_SIZE;
            let next = chain.with_candidate(now);
            let batch = next.candidate->0.transactions;
            &&& batch == chain.pool.subrange(cut, chain.pool.len() as int)
            &&& batch.len() == BLOCK_TRANSACTIONS_SIZE
            &&& next.pool == chain.pool.subrange(0, cut)
            &&& pool_ordered(next.pool)
            &&& forall|i: int, j: int|
                0 <= i < next.pool.len() && 0 <= j < batch.len() ==> (#[trigger] next.pool[i]).rank()
                    <= (#[trigger] batch[j]).rank()
        }),
{
    lemma_batch_is_heaviest(chain.pool);
}

/// With fewer than `BLOCK_TRANSACTIONS_SIZE` pending transactions and no
/// block in mining, assembling a block moves all of them into it and leaves
/// the pool empty.
pub proof fn lemma_short_pool_is_drained(chain: ChainView, now: Timestamp)
    requires
        chain.wf(),
        chain.candidate is None,
        chain.pool.len() < BLOCK_TRANSACTIONS_SIZE,
    ensures
        chain.with_candidate(now).candidate->0.transactions == chain.pool,
        chain.with_candidate(now).pool == Seq::<Transaction>::empty(),
{
    lemma_batch_is_heaviest(chain.pool);
    assert(chain.with_candidate(now).pool =~= Seq::<Transaction>::empty());
}

/// Assembling a block moves transactions and neither drops nor copies one:
/// what the pool held is what the pool and the block in mining hold after.
pub proof fn lemma_assembly_moves_transactions(chain: ChainView, now: Timestamp)
    requires
        chain.wf(),
        chain.candidate is None,
    ensures
        chain.with_candidate(now).pool + chain.with_candidate(now).candidate->0.transactions
            == chain.pool,
{
    lemma_batch_is_heaviest(chain.pool);
}

/// While a block is in mining, asking for the block to mine again changes
/// nothing: the same block, with the same transactions, stays in mining.
pub proof fn lemma_candidate_is_kept(chain: ChainView, first: Timestamp, second: Timestamp)
    ensures
        chain.with_candidate(first).with_candidate(second) == chain.with_candidate(first),
{
}

/// In a well-formed chain the first block links to the zero hash, and every
/// later block to the hash of the block just before it.
pub proof fn lemma_hash_linkage(chain: ChainView, index: int)
    requires
        chain.wf(),
        0 <= index < chain.blocks.len(),
    ensures
        index == 0 ==> chain.blocks[index].previous_hash == zero_hash(),
        index > 0 ==> chain.blocks[index].previous_hash == chain.blocks[index - 1].hash,
{
}

/// In a well-formed chain the hash of every sealed block is the SHA-256
/// digest of the block's preimage followed by the eight bytes of its nonce.
pub proof fn lemma_blocks_are_sealed(chain: ChainView, index: int)
    requires
        chain.wf(),
        0 <= index < chain.blocks.len(),
    ensures
        chain.blocks[index].hash == nonce_digest(
            chain.blocks[index].preimage(),
            chain.blocks[index].nonce,
        ),
{
    assert(chain.blocks[index].is_sealed());
}

/// Sealing the block in mining keeps a chain well formed. The chain grows by
/// that block, which carries the digest of its own fields and links to the
/// block that was last; where the nonce is accepted, the digest starts with
/// as many zero bytes as the complexity asks for. The pool is not touched.
pub proof fn lemma_seal_keeps_wf(chain: ChainView, nonce: u64)
    requires
        chain.wf(),
        chain.candidate is Some,
    ensures
        chain.seal(nonce).wf(),
        chain.seal(nonce).blocks.len() == chain.blocks.len() + 1,
        chain.seal(nonce).blocks.last().is_sealed(),
        chain.seal(nonce).blocks.last().previous_hash == chain.tip_hash(),
        chain.seal(nonce).blocks.last().transactions == chain.candidate->0.transactions,
        chain.seal(nonce).pool == chain.pool,
        chain.seal(nonce).candidate is None,
        nonce_accepted(chain.candidate->0.preimage(), chain.complexity as nat, nonce)
            ==> has_leading_zeros(chain.seal(nonce).blocks.last().hash, chain.complexity as nat),
{
    let after = chain.seal(nonce);
    assert forall|i: int| 0 <= i < after.blocks.len() implies (#[trigger] after.blocks[i]).is_sealed()
        && after.blocks[i].previous_hash == predecessor_hash(after.blocks, i) by {
        if i < chain.blocks.len() {
            assert(after.blocks[i] == chain.blocks[i]);
            assert(predecessor_hash(after.blocks, i) == predecessor_hash(chain.blocks, i));
        }
    }
}

/// A mining cycle keeps a chain well formed. Where it succeeds, the chain
/// grows by the returned block: its hash is the SHA-256 digest of its preimage
/// followed by the eight bytes of its nonce, the digest starts with as many
/// zero bytes as the complexity asks for, and the block links to the block
/// that was last. With complexity 0 the cycle succeeds with the first nonce
/// tried.
pub proof fn lemma_mining_outcome(
    chain: ChainView,
    now: Timestamp,
    start: u64,
    end: u64,
    sealed: Result<BlockView, MiningExhausted>,
    after: ChainView,
)
    requires
        chain.wf(),
        chain.mined(now, start, end, sealed, after),
    ensures
        after.wf(),
        sealed matches Ok(block) ==> {
            &&& block.is_sealed()
            &&& block.hash == nonce_digest(block.preimage(), block.nonce)
            &&& has_leading_zeros(block.hash, chain.complexity as nat)
            &&& block.previous_hash == chain.tip_hash()
            &&& after.blocks == chain.blocks.push(block)
            &&& after.candidate is None
        },
        sealed is Err ==> after == chain.with_candidate(now),
        chain.complexity == 0 && start < end ==> (sealed matches Ok(block) && block.nonce == start),
{
    let ready = chain.with_candidate(now);
    lemma_with_candidate_keeps_wf(chain, now);
    if start < end {
        lemma_zero_complexity_accepts(ready.candidate->0.preimage(), start, end);
    }
    match sealed {
        Ok(block) => {
            lemma_sealed_with_is_sealed(ready.candidate->0, block.nonce);
            lemma_seal_keeps_wf(ready, block.nonce);
        },
        Err(_) => {},
    }
}

/// A mining cycle on an empty pool, with no block in mining, seals a block
/// like any other, with no transactions in it.
pub proof fn lemma_empty_pool_seals_empty_block(chain: ChainView, now: Timestamp, nonce: u64)
    requires
        chain.wf(),
        chain.candidate is None,
        chain.pool.len() == 0,
    ensures
        ({
            let after = chain.with_candidate(now).seal(nonce);
            &&& after.wf()
            &&& after.blocks.len() == chain.blocks.len() + 1
            &&& after.blocks.last().is_sealed()
            &&& after.blocks.last().transactions.len() == 0
            &&& after.pool.len() == 0
        }),
{
    lemma_with_candidate_keeps_wf(chain, now);
    lemma_seal_keeps_wf(chain.with_candidate(now), nonce);
}

/// The sealed blocks, the pool, and at most one block in mining.
#[derive(Debug)]
pub struct BlockChain {
    blocks: Vec<Block>,
    complexity: usize,
    transaction_pool: Vec<Transaction>,
    block_to_mine: Option<Block>,
}

impl View for BlockChain {
    type V = ChainView;

    closed spec fn view(&self) -> ChainView {
        ChainView {
            blocks: block_views(self.blocks@),
            complexity: self.complexity,
            pool: self.transaction_pool@,
            candidate: match self.block_to_mine {
                Some(block) => Some(block@),
                None => None,
            },
        }
    }
}

impl BlockChain {
    #[verifier::type_invariant]
    spec fn inv(&self) -> bool {
        self@.wf()
    }

    /// Builds an empty chain that asks for `complexity` leading zero bytes.
    pub fn new(complexity: usize) -> (chain: BlockChain)
        requires
            complexity <= DIGEST_SIZE,
        ensures
            chain@ == ChainView::empty(complexity),
            chain@.wf(),
    {
        let chain = BlockChain {
            blocks: Vec::new(),
            complexity,
            transaction_pool: Vec::new(),
            block_to_mine: None,
        };
        assert(chain@.blocks =~= Seq::empty());
        chain
    }

    /// The sealed blocks, first block first.
    pub fn blocks(&self) -> (blocks: &Vec<Block>)
        ensures
            block_views(blocks@) == self@.blocks,
            self@.wf(),
    {
        proof {
            use_type_invariant(self);
        }
        &self.blocks
    }

    /// The number of leading zero bytes that a sealing digest must have.
    pub fn complexity(&self) -> (complexity: usize)
        ensures
            complexity == self@.complexity,
            complexity <= DIGEST_SIZE,
    {
        proof {
            use_type_invariant(self);
        }
        self.complexity
    }

    /// The pending transactions, in ascending order of weight.
    pub fn transaction_pool(&self) -> (pool: &Vec<Transaction>)
        ensures
            pool@ == self@.pool,
            pool_ordered(pool@),
    {
        proof {
            use_type_invariant(self);
        }
        &self.transaction_pool
    }

    /// The block that is being mined, if any.
    pub fn block_to_mine(&self) -> (candidate: Option<&Block>)
        ensures
            match candidate {
                Some(block) => self@.candidate == Some(block@),
                None => self@.candidate is None,
            },
            self@.wf(),
    {
        proof {
            use_type_invariant(self);
        }
        self.block_to_mine.as_ref()
    }

    /// Changes the number of leading zero bytes asked of the blocks that are
    /// sealed from now on.
    pub fn set_complexity(&mut self, complexity: usize)
        requires
            complexity <= DIGEST_SIZE,
        ensures
            final(self)@ == (ChainView { complexity, ..old(self)@ }),
            final(self)@.wf(),
    {
        proof {
            use_type_invariant(&*self);
        }
        self.complexity = complexity;
    }

    /// Appends a sealed block that links to the last one, while no block is
    /// being mined.
    fn append_block(&mut self, block: Block)
        requires
            old(self)@.candidate is None,
            block@.is_sealed(),
            block@.previous_hash == old(self)@.tip_hash(),
        ensures
            final(self)@ == (ChainView { blocks: old(self)@.blocks.push(block@), ..old(self)@ }),
            final(self).blocks@ == old(self).blocks@.push(block),
    {
        proof {
            use_type_invariant(&*self);
        }
        let ghost before = self.blocks@;
        let mut blocks: Vec<Block> = Vec::new();
        core::mem::swap(&mut blocks, &mut self.blocks);
        blocks.push(block);
        proof {
            let views = block_views(blocks@);
            assert(views =~= block_views(before).push(block@));
            assert forall|i: int| 0 <= i < views.len() implies (#[trigger] views[i]).is_sealed()
                && views[i].previous_hash == predecessor_hash(views, i) by {
                if i < before.len() {
                    assert(views[i] == block_views(before)[i]);
                    assert(predecessor_hash(views, i) == predecessor_hash(block_views(before), i));
                }
            }
        }
        self.blocks = blocks;
    }

    /// Builds an unsealed block that bundles `transactions` and links to the
    /// last sealed block.
    fn new_block_from_transactions(&self, now: Timestamp, transactions: Vec<Transaction>) -> (block:
        Block)
        ensures
            block@ == (BlockView {
                timestamp: now,
                hash: zero_hash(),
                previous_hash: self@.tip_hash(),
                transactions: transactions@,
                nonce: 0,
            }),
    {
        let mut block = Block::new_from_transactions(now, transactions);
        let count: usize = self.blocks.len();
        if count > 0 {
            block.previous_hash = self.blocks[count - 1].hash;
        }
        block
    }

    /// Returns the block that is being mined. Where there is none, one is
    /// assembled first, at `now`: it links to the last sealed block, and the
    /// last `BLOCK_TRANSACTIONS_SIZE` transactions of the pool, its heaviest,
    /// move into it, or all of them where the pool holds fewer.
    pub fn get_block_to_mine(&mut self, now: Timestamp) -> (candidate: &Block)
        ensures
            final(self)@ == old(self)@.with_candidate(now),
            final(self)@.candidate == Some(candidate@),
            final(self)@.wf(),
    {
        proof {
            use_type_invariant(&*self);
        }
        if self.block_to_mine.is_none() {
            proof {
                lemma_batch_is_heaviest(self.transaction_pool@);
            }
            let mut pool: Vec<Transaction> = Vec::new();
            core::mem::swap(&mut pool, &mut self.transaction_pool);
            let batch = take_batch(&mut pool);
            self.transaction_pool = pool;
            let block = self.new_block_from_transactions(now, batch);
            self.block_to_mine = Some(block);
        }
        self.block_to_mine.as_ref().unwrap()
    }

    /// Seals the block that is being mined with `work`, appends it to the
    /// sealed blocks, and leaves no block in mining.
    fn new_block_from_block_to_mine(&mut self, work: ProofOfWork)
        requires
            old(self)@.candidate matches Some(candidate) && work.hash@ == nonce_digest(
                candidate.preimage(),
                work.nonce,
            ),
        ensures
            final(self)@ == old(self)@.seal(work.nonce),
            final(self).blocks@.len() == old(self).blocks@.len() + 1,
    {
        proof {
            use_type_invariant(&*self);
        }
        let mut slot: Option<Block> = None;
        core::mem::swap(&mut slot, &mut self.block_to_mine);
        let mut candidate = slot.unwrap();
        candidate.nonce = work.nonce;
        candidate.hash = work.hash;
        let block = Block::new_from_block_to_mine(&mut candidate);
        self.append_block(block);
    }

    /// Runs one mining cycle over the nonces from `start` up to, but not
    /// including, `end`. The block to mine is the one in mining, or one
    /// assembled at `now`. The nonces are tried in order; the first whose
    /// digest starts with as many zero bytes as the complexity asks for seals
    /// the block, which is appended and returned. Where none is accepted the
    /// block stays in mining.
    pub fn confirm_transactions_in(&mut self, now: Timestamp, start: u64, end: u64) -> (sealed:
        Result<&Block, MiningExhausted>)
        ensures
            old(self)@.mined(now, start, end, outcome_view(sealed), final(self)@),
            sealed matches Ok(block) ==> {
                &&& block@.is_sealed()
                &&& has_leading_zeros(block@.hash, old(self)@.complexity as nat)
                &&& block@.previous_hash == old(self)@.tip_hash()
            },
            old(self)@.complexity == 0 && start < end ==> (sealed matches Ok(block) && block.nonce
                == start),
            final(self)@.wf(),
    {
        proof {
            use_type_invariant(&*self);
        }
        let complexity: usize = self.complexity;
        let preimage: Vec<u8> = self.get_block_to_mine(now).build_preimage();
        let ghost ready = self@;
        match find_nonce_in(preimage.as_slice(), complexity, start, end) {
            Some(work) => {
                self.new_block_from_block_to_mine(work);
                let count: usize = self.blocks.len();
                proof {
                    assert(self@ == ready.seal(work.nonce));
                    assert(block_views(self.blocks@)[count - 1] == self.blocks@[count - 1]@);
                    lemma_mining_outcome(
                        old(self)@,
                        now,
                        start,
                        end,
                        Ok(self.blocks@[count - 1]@),
                        self@,
                    );
                }
                Ok(&self.blocks[count - 1])
            },
            None => {
                proof {
                    lemma_mining_outcome(old(self)@, now, start, end, Err(MiningExhausted), self@);
                }
                Err(MiningExhausted)
            },
        }
    }

    /// Runs one mining cycle over every nonce below `NONCE_LIMIT`: the block
    /// in mining, or one assembled at `now`, is sealed with the first
    /// accepted nonce, appended and returned. Where no nonce is accepted the
    /// cycle fails and the block stays in mining.
    pub fn confirm_transactions(&mut self, now: Timestamp) -> (sealed: Result<
        &Block,
        MiningExhausted,
    >)
        ensures
            old(self)@.mined(now, 0, NONCE_LIMIT, outcome_view(sealed), final(self)@),
            sealed matches Ok(block) ==> {
                &&& block@.is_sealed()
                &&& has_leading_zeros(block@.hash, old(self)@.complexity as nat)
                &&& block@.previous_hash == old(self)@.tip_hash()
            },
            old(self)@.complexity == 0 ==> (sealed matches Ok(block) && block.nonce == 0),
            final(self)@.wf(),
    {
        self.confirm_transactions_in(now, 0, NONCE_LIMIT)
    }

    /// Puts `transaction` into the pool, behind every pending transaction
    /// that weighs no more.
    pub fn schedule_transaction(&mut self, transaction: Transaction)
        requires
            transaction.is_orderable(),
        ensures
            final(self)@ == old(self)@.schedule(transaction),
            final(self)@.wf(),
    {
        proof {
            use_type_invariant(&*self);
        }
        let mut pool: Vec<Transaction> = Vec::new();
        core::mem::swap(&mut pool, &mut self.transaction_pool);
        insert_ordered(&mut pool, transaction);
        self.transaction_pool = pool;
    }
}

} // verus!
