//! A single-node, append-only ledger: hash-linked blocks of signed transfers,
//! sealed by a proof-of-work search, with balances derived by replaying the chain.

pub mod balances;
pub mod base16;
pub mod block;
pub mod blockchain;
pub mod digest;
pub mod integrity;
pub mod signing;
pub mod text;
pub mod transaction;
pub mod wallet;

pub use block::Block;
pub use blockchain::{AppendError, Blockchain};
pub use transaction::Transaction;
pub use wallet::Wallet;
