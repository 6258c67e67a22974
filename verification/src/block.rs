//! Blocks and the bytes that are hashed to seal them.

use crate::digest::sha256;
use crate::encoding::{be_bytes, push_be_u32, push_be_u64};
use crate::transaction::Transaction;
use vstd::prelude::*;
use vstd::utf8::encode_utf8;

verus! {

/// An instant, as the time that has passed since the Unix epoch.
#[derive(Debug, Clone, Copy, PartialEq, Eq)]
pub struct Timestamp {
    /// Whole seconds.
    pub secs: u64,
    /// The fraction of a second, in nanoseconds.
    pub subsec_nanos: u32,
}

/// A record that links to its predecessor by hash and carries the
/// transactions it bundles and the nonce and hash that prove the work.
#[derive(Debug, Clone, PartialEq, Eq)]
pub struct Block {
    /// The instant at which the block was created.
    pub timestamp: Timestamp,
    /// The digest that seals the block; all zero while it is unsealed.
    pub hash: [u8; 32],
    /// The hash of the predecessor; all zero for the first block.
    pub previous_hash: [u8; 32],
    /// The transactions that the block bundles, in order.
    pub transactions: Vec<Transaction>,
    /// The proof-of-work witness; 0 until the block is sealed.
    pub nonce: u64,
}

/// What a block holds, as mathematical values.
pub struct BlockView {
    pub timestamp: Timestamp,
    pub hash: Seq<u8>,
    pub previous_hash: Seq<u8>,
    pub transactions: Seq<Transaction>,
    pub nonce: u64,
}

/// The hash of an unsealed block and the predecessor hash of the first block:
/// 32 zero bytes.
pub open spec fn zero_hash() -> Seq<u8> {
    Seq::new(32, |i: int| 0u8)
}

/// The bytes that one transaction adds to a preimage: its payload in UTF-8,
/// then the four bytes of its weight, most significant first.
pub open spec fn transaction_bytes(transaction: Transaction) -> Seq<u8> {
    encode_utf8(transaction.data@) + be_bytes(transaction.weight_bits as nat, 4)
}

/// The bytes of the transactions, one after the other.
pub open spec fn transactions_bytes(transactions: Seq<Transaction>) -> Seq<u8>
    decreases transactions.len(),
{
    if transactions.len() == 0 {
        Seq::empty()
    } else {
        transactions_bytes(transactions.drop_last()) + transaction_bytes(transactions.last())
    }
}

impl BlockView {
    /// The bytes that stand for the block's fixed fields: the predecessor's
    /// hash, the eight bytes of the timestamp's whole seconds, most
    /// significant first, and the bytes of the transactions.
    pub open spec fn preimage(self) -> Seq<u8> {
        self.previous_hash + be_bytes(self.timestamp.secs as nat, 8) + transactions_bytes(
            self.transactions,
        )
    }

    /// The bytes that are hashed when `nonce` is tried: the preimage, then the
    /// eight bytes of the nonce, most significant first.
    pub open spec fn mining_input(self, nonce: u64) -> Seq<u8> {
        self.preimage() + be_bytes(nonce as nat, 8)
    }

    /// Whether the hash is the SHA-256 digest that the block's fixed fields
    /// and its nonce give.
    pub open spec fn is_sealed(self) -> bool {
        self.hash == sha256(self.mining_input(self.nonce))
    }

    /// Whether hash and nonce still have the values of a fresh block.
    pub open spec fn is_unsealed(self) -> bool {
        self.hash == zero_hash() && self.nonce == 0
    }

    /// The block sealed with `nonce` and the digest that belongs to it.
    pub open spec fn sealed_with(self, nonce: u64) -> BlockView {
        BlockView { hash: sha256(self.mining_input(nonce)), nonce, ..self }
    }
}

impl View for Block {
    type V = BlockView;

    open spec fn view(&self) -> BlockView {
        BlockView {
            timestamp: self.timestamp,
            hash: self.hash@,
            previous_hash: self.previous_hash@,
            transactions: self.transactions@,
            nonce: self.nonce,
        }
    }
}

/// Sealing changes hash and nonce alone, so the preimage stays, and the sealed
/// block's hash is the digest of its own fields.
pub proof fn lemma_sealed_with_is_sealed(block: BlockView, nonce: u64)
    ensures
        block.sealed_with(nonce).preimage() == block.preimage(),
        block.sealed_with(nonce).is_sealed(),
{
}

impl Block {
    /// Builds a block from its parts.
    pub fn new(
        timestamp: Timestamp,
        hash: [u8; 32],
        previous_hash: [u8; 32],
        transactions: Vec<Transaction>,
        nonce: u64,
    ) -> (block: Block)
        ensures
            block@ == (BlockView {
                timestamp,
                hash: hash@,
                previous_hash: previous_hash@,
                transactions: transactions@,
                nonce,
            }),
    {
        Block { timestamp, hash, previous_hash, transactions, nonce }
    }

    /// Takes the contents of a block that has been mined into a block of their
    /// own. The transactions move; `block_to_mine` keeps its other fields and
    /// is left without transactions.
    pub fn new_from_block_to_mine(block_to_mine: &mut Block) -> (block: Block)
        ensures
            block@ == old(block_to_mine)@,
            final(block_to_mine)@ == (BlockView {
                transactions: Seq::empty(),
                ..old(block_to_mine)@
            }),
    {
        let mut transactions: Vec<Transaction> = Vec::new();
        core::mem::swap(&mut transactions, &mut block_to_mine.transactions);
        Block {
            timestamp: block_to_mine.timestamp,
            hash: block_to_mine.hash,
            previous_hash: block_to_mine.previous_hash,
            transactions,
            nonce: block_to_mine.nonce,
        }
    }

    /// Builds an unsealed block without a predecessor from the transactions
    /// it is to bundle.
    pub fn new_from_transactions(timestamp: Timestamp, transactions: Vec<Transaction>) -> (block:
        Block)
        ensures
            block@ == (BlockView {
                timestamp,
                hash: zero_hash(),
                previous_hash: zero_hash(),
                transactions: transactions@,
                nonce: 0,
            }),
    {
        let block = Block {
            timestamp,
            hash: [0u8; 32],
            previous_hash: [0u8; 32],
            transactions,
            nonce: 0,
        };
        assert(block.hash@ =~= zero_hash());
        assert(block.previous_hash@ =~= zero_hash());
        block
    }

    /// Builds the preimage of the block.
    pub fn build_preimage(&self) -> (bytes: Vec<u8>)
        ensures
            bytes@ == self@.preimage(),
    {
        let mut bytes: Vec<u8> = Vec::new();
        bytes.extend_from_slice(self.previous_hash.as_slice());
        push_be_u64(&mut bytes, self.timestamp.secs);
        let ghost head = bytes@;
        assert(head =~= self.previous_hash@ + be_bytes(self.timestamp.secs as nat, 8));
        let mut i: usize = 0;
        while i < self.transactions.len()
            invariant
                i <= self.transactions.len(),
                bytes@ == head + transactions_bytes(self.transactions@.subrange(0, i as int)),
            decreases self.transactions.len() - i,
        {
            let transaction = &self.transactions[i];
            let ghost before = bytes@;
            bytes.extend_from_slice(transaction.data.as_str().as_bytes());
            push_be_u32(&mut bytes, transaction.weight_bits);
            proof {
                let done = self.transactions@.subrange(0, i as int);
                let next = self.transactions@.subrange(0, i as int + 1);
                assert(next.drop_last() =~= done);
                assert(next.last() == *transaction);
                assert(bytes@ =~= before + transaction_bytes(*transaction));
                assert(bytes@ =~= head + transactions_bytes(next));
            }
            i += 1;
        }
        assert(self.transactions@.subrange(0, i as int) =~= self.transactions@);
        bytes
    }
}

} // verus!
