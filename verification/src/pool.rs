//! The ordering policy of the pool of pending transactions.
//!
//! The pool is kept in ascending order of weight. A new transaction goes behind
//! every pending one that weighs no more than it does, so transactions of equal
//! weight stay in the order in which they came.

use crate::transaction::{weight_order_key, Transaction};
use vstd::prelude::*;

verus! {

/// The most transactions that one block bundles.
pub const BLOCK_TRANSACTIONS_SIZE: usize = 10;

/// Whether every weight in the pool is a number and the weights ascend.
pub open spec fn pool_ordered(pool: Seq<Transaction>) -> bool {
    &&& forall|i: int| 0 <= i < pool.len() ==> (#[trigger] pool[i]).is_orderable()
    &&& forall|i: int, j: int|
        0 <= i <= j < pool.len() ==> (#[trigger] pool[i]).rank() <= (#[trigger] pool[j]).rank()
}

/// The place of a new transaction of rank `rank`: just behind the last pending
/// transaction whose rank is not larger.
pub open spec fn insertion_point(pool: Seq<Transaction>, rank: int) -> nat
    decreases pool.len(),
{
    if pool.len() == 0 {
        0
    } else if pool.last().rank() <= rank {
        pool.len()
    } else {
        insertion_point(pool.drop_last(), rank)
    }
}

/// The pool after `transaction` has been scheduled.
pub open spec fn pool_with(pool: Seq<Transaction>, transaction: Transaction) -> Seq<Transaction> {
    pool.insert(insertion_point(pool, transaction.rank()) as int, transaction)
}

/// Where the pool is cut when a block is assembled: what lies behind the cut
/// goes into the block, at most `BLOCK_TRANSACTIONS_SIZE` transactions.
pub open spec fn batch_start(pool_len: nat) -> nat {
    if pool_len < BLOCK_TRANSACTIONS_SIZE {
        0
    } else {
        (pool_len - BLOCK_TRANSACTIONS_SIZE) as nat
    }
}

/// The transactions that stay in the pool when a block is assembled.
pub open spec fn pool_remainder(pool: Seq<Transaction>) -> Seq<Transaction> {
    pool.subrange(0, batch_start(pool.len()) as int)
}

/// The transactions that move into the block when a block is assembled.
pub open spec fn pool_batch(pool: Seq<Transaction>) -> Seq<Transaction> {
    pool.subrange(batch_start(pool.len()) as int, pool.len() as int)
}

/// The insertion point lies in the pool; in an ordered pool, no transaction in
/// front of it has a larger rank and every transaction behind it has one.
pub proof fn lemma_insertion_point(pool: Seq<Transaction>, rank: int)
    ensures
        insertion_point(pool, rank) <= pool.len(),
        forall|i: int|
            insertion_point(pool, rank) <= i < pool.len() ==> rank < (#[trigger] pool[i]).rank(),
        pool_ordered(pool) ==> forall|i: int|
            0 <= i < insertion_point(pool, rank) ==> (#[trigger] pool[i]).rank() <= rank,
    decreases pool.len(),
{
    if pool.len() > 0 && pool.last().rank() > rank {
        let front = pool.drop_last();
        lemma_insertion_point(front, rank);
        assert forall|i: int| insertion_point(pool, rank) <= i < pool.len() implies rank < (
        #[trigger] pool[i]).rank() by {
            if i < front.len() {
                assert(pool[i] == front[i]);
            }
        }
        if pool_ordered(pool) {
            assert forall|i: int, j: int| 0 <= i <= j < front.len() implies (
            #[trigger] front[i]).rank() <= (#[trigger] front[j]).rank() by {
                assert(front[i] == pool[i] && front[j] == pool[j]);
            }
            assert forall|i: int| 0 <= i < front.len() implies (
            #[trigger] front[i]).is_orderable() by {
                assert(front[i] == pool[i]);
            }
            assert forall|i: int| 0 <= i < insertion_point(pool, rank) implies (
            #[trigger] pool[i]).rank() <= rank by {
                assert(pool[i] == front[i]);
            }
        }
    } else if pool.len() > 0 {
        if pool_ordered(pool) {
            assert forall|i: int| 0 <= i < insertion_point(pool, rank) implies (
            #[trigger] pool[i]).rank() <= rank by {
                assert(pool[i].rank() <= pool[pool.len() - 1].rank());
            }
        }
    }
}

/// Scheduling keeps the pool ordered: an ordered pool with one more
/// transaction, whose weight is a number, is ordered again.
pub proof fn lemma_schedule_keeps_order(pool: Seq<Transaction>, transaction: Transaction)
    requires
        pool_ordered(pool),
        transaction.is_orderable(),
    ensures
        pool_ordered(pool_with(pool, transaction)),
{
    let k = insertion_point(pool, transaction.rank()) as int;
    let after = pool_with(pool, transaction);
    lemma_insertion_point(pool, transaction.rank());
    assert forall|i: int| 0 <= i < after.len() implies (#[trigger] after[i]).is_orderable() by {
        if i < k {
            assert(after[i] == pool[i]);
        } else if i > k {
            assert(after[i] == pool[i - 1]);
        }
    }
    assert forall|i: int, j: int| 0 <= i <= j < after.len() implies (#[trigger] after[i]).rank() <= (
    #[trigger] after[j]).rank() by {
        if i < k {
            assert(after[i] == pool[i]);
        } else if i > k {
            assert(after[i] == pool[i - 1]);
        }
        if j < k {
            assert(after[j] == pool[j]);
        } else if j > k {
            assert(after[j] == pool[j - 1]);
        }
    }
}

/// Scheduling adds the transaction and neither drops nor repeats another: the
/// pool holds what it held before, and the new transaction once more.
pub proof fn lemma_schedule_keeps_contents(pool: Seq<Transaction>, transaction: Transaction)
    ensures
        pool_with(pool, transaction).len() == pool.len() + 1,
        pool_with(pool, transaction).to_multiset() == pool.to_multiset().insert(transaction),
{
    let k = insertion_point(pool, transaction.rank()) as int;
    lemma_insertion_point(pool, transaction.rank());
    vstd::seq_lib::to_multiset_insert(pool, k, transaction);
}

/// Assembling a block splits an ordered pool in two: the remainder and the
/// batch make up the pool, the batch holds at most `BLOCK_TRANSACTIONS_SIZE`
/// transactions and all of them where the pool has fewer, the remainder is
/// ordered, and nothing in the remainder outweighs anything in the batch.
pub proof fn lemma_batch_is_heaviest(pool: Seq<Transaction>)
    requires
        pool_ordered(pool),
    ensures
        pool_remainder(pool) + pool_batch(pool) == pool,
        pool.len() >= BLOCK_TRANSACTIONS_SIZE ==> pool_batch(pool).len()
            == BLOCK_TRANSACTIONS_SIZE,
        pool.len() < BLOCK_TRANSACTIONS_SIZE ==> pool_batch(pool) == pool && pool_remainder(
            pool,
        ).len() == 0,
        pool_ordered(pool_remainder(pool)),
        pool_ordered(pool_batch(pool)),
        forall|i: int, j: int|
            0 <= i < pool_remainder(pool).len() && 0 <= j < pool_batch(pool).len() ==> (
            #[trigger] pool_remainder(pool)[i]).rank() <= (#[trigger] pool_batch(pool)[j]).rank(),
{
    let cut = batch_start(pool.len()) as int;
    let rest = pool_remainder(pool);
    let batch = pool_batch(pool);
    assert(rest + batch =~= pool);
    if pool.len() < BLOCK_TRANSACTIONS_SIZE {
        assert(batch =~= pool);
    }
    assert forall|i: int| 0 <= i < rest.len() implies (#[trigger] rest[i]).is_orderable() by {
        assert(rest[i] == pool[i]);
    }
    assert forall|i: int| 0 <= i < batch.len() implies (#[trigger] batch[i]).is_orderable() by {
        assert(batch[i] == pool[cut + i]);
    }
    assert forall|i: int, j: int| 0 <= i <= j < rest.len() implies (#[trigger] rest[i]).rank() <= (
    #[trigger] rest[j]).rank() by {
        assert(rest[i] == pool[i] && rest[j] == pool[j]);
    }
    assert forall|i: int, j: int| 0 <= i <= j < batch.len() implies (#[trigger] batch[i]).rank()
        <= (#[trigger] batch[j]).rank() by {
        assert(batch[i] == pool[cut + i] && batch[j] == pool[cut + j]);
    }
    assert forall|i: int, j: int| 0 <= i < rest.len() && 0 <= j < batch.len() implies (
    #[trigger] rest[i]).rank() <= (#[trigger] batch[j]).rank() by {
        assert(rest[i] == pool[i] && batch[j] == pool[cut + j]);
    }
}

/// Inserts `transaction` into an ordered pool at its insertion point.
pub fn insert_ordered(pool: &mut Vec<Transaction>, transaction: Transaction)
    requires
        pool_ordered(old(pool)@),
        transaction.is_orderable(),
    ensures
        final(pool)@ == pool_with(old(pool)@, transaction),
        pool_ordered(final(pool)@),
{
    let key: i64 = weight_order_key(transaction.weight_bits).unwrap();
    let mut k: usize = pool.len();
    assert(pool@.subrange(0, k as int) =~= pool@);
    while k > 0 && weight_order_key(pool[k - 1].weight_bits).unwrap() > key
        invariant
            k <= pool.len(),
            pool@ == old(pool)@,
            pool_ordered(pool@),
            key == transaction.rank(),
            insertion_point(pool@, key as int) == insertion_point(
                pool@.subrange(0, k as int),
                key as int,
            ),
        decreases k,
    {
        proof {
            assert(pool@.subrange(0, k as int).drop_last() =~= pool@.subrange(0, k as int - 1));
        }
        k -= 1;
    }
    proof {
        lemma_schedule_keeps_order(pool@, transaction);
    }
    pool.insert(k, transaction);
}

/// Takes the batch for the next block out of the pool and returns it: the last
/// `BLOCK_TRANSACTIONS_SIZE` transactions, or the whole pool where it holds
/// fewer.
pub fn take_batch(pool: &mut Vec<Transaction>) -> (batch: Vec<Transaction>)
    ensures
        final(pool)@ == pool_remainder(old(pool)@),
        batch@ == pool_batch(old(pool)@),
{
    let cut: usize = if pool.len() < BLOCK_TRANSACTIONS_SIZE {
        0
    } else {
        pool.len() - BLOCK_TRANSACTIONS_SIZE
    };
    pool.split_off(cut)
}

} // verus!
