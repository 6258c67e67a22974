//! The operations that a front end calls on a chain.

use crate::block::{Block, Timestamp};
use crate::chain::{block_views, outcome_view, BlockChain, MiningExhausted};
use crate::digest::has_leading_zeros;
use crate::mining::NONCE_LIMIT;
use crate::transaction::{weight_is_nan, Transaction};
use vstd::prelude::*;
use vstd::slice::slice_subrange;

verus! {

/// The last `count` elements of a sequence, or all of it where it has fewer.
pub open spec fn last_n<T>(items: Seq<T>, count: nat) -> Seq<T> {
    if count < items.len() {
        items.subrange(items.len() - count, items.len() as int)
    } else {
        items
    }
}

/// Makes a transaction of the payload and the bit pattern of the weight, and
/// schedules it.
pub fn create_transaction(data: String, weight_bits: u32, blockchain: &mut BlockChain)
    requires
        !weight_is_nan(weight_bits),
    ensures
        final(blockchain)@ == old(blockchain)@.schedule((Transaction { data, weight_bits })),
        final(blockchain)@.wf(),
{
    blockchain.schedule_transaction(Transaction::new(data, weight_bits));
}

/// The last `n` pending transactions, in ascending order of weight, or all of
/// them where fewer are pending.
pub fn get_last_transactions(blockchain: &BlockChain, n: usize) -> (recent: &[Transaction])
    ensures
        recent@ == last_n(blockchain@.pool, n as nat),
{
    let pool = blockchain.transaction_pool();
    let pool_size: usize = pool.len();
    if n < pool_size {
        slice_subrange(pool.as_slice(), pool_size - n, pool_size)
    } else {
        pool.as_slice()
    }
}

/// The last `n` sealed blocks, in the order of the chain, or all of them where
/// the chain has fewer.
pub fn get_last_blocks(blockchain: &BlockChain, n: usize) -> (recent: &[Block])
    ensures
        block_views(recent@) == last_n(blockchain@.blocks, n as nat),
{
    let blocks = blockchain.blocks();
    let blocks_size: usize = blocks.len();
    if n < blocks_size {
        let recent = slice_subrange(blocks.as_slice(), blocks_size - n, blocks_size);
        assert(block_views(recent@) =~= last_n(block_views(blocks@), n as nat));
        recent
    } else {
        blocks.as_slice()
    }
}

/// Runs one mining cycle on the chain: the block in mining, or one assembled
/// at `now`, is sealed with the first accepted nonce below `NONCE_LIMIT`,
/// appended and returned. Where no nonce is accepted the cycle fails and the
/// block stays in mining.
pub fn confirm_transactions(blockchain: &mut BlockChain, now: Timestamp) -> (sealed: Result<
    &Block,
    MiningExhausted,
>)
    ensures
        old(blockchain)@.mined(now, 0, NONCE_LIMIT, outcome_view(sealed), final(blockchain)@),
        sealed matches Ok(block) ==> {
            &&& block@.is_sealed()
            &&& has_leading_zeros(block@.hash, old(blockchain)@.complexity as nat)
            &&& block@.previous_hash == old(blockchain)@.tip_hash()
        },
        old(blockchain)@.complexity == 0 ==> (sealed matches Ok(block) && block.nonce == 0),
        final(blockchain)@.wf(),
{
    blockchain.confirm_transactions(now)
}

/// The block that is being mined, if any. Nothing is assembled.
pub fn get_block_to_mine(blockchain: &BlockChain) -> (candidate: Option<&Block>)
    ensures
        match candidate {
            Some(block) => blockchain@.candidate == Some(block@),
            None => blockchain@.candidate is None,
        },
{
    blockchain.block_to_mine()
}

} // verus!
