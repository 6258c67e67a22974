//! A single-node, in-memory proof-of-work ledger.
//!
//! Pending transactions wait in a pool ordered by weight. A mining cycle moves
//! the heaviest of them into a candidate block and searches for the first nonce
//! whose SHA-256 digest starts with the required number of zero bytes; the
//! sealed block is then appended to the chain.

pub mod block;
pub mod chain;
pub mod commands;
pub mod digest;
pub mod encoding;
pub mod mining;
pub mod pool;
pub mod services;
pub mod transaction;

pub use block::{Block, Timestamp};
pub use chain::{BlockChain, MiningExhausted};
pub use transaction::Transaction;
