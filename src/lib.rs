//! An append-only ledger: content-hashed blocks, each sealed by a proof-of-work
//! search, linked to their predecessor by digest, with a validator that detects
//! any retroactive change.

pub mod digest;
pub mod block;
pub mod blockchain;
pub mod adder;
pub mod numbers;

pub use numbers::fibonacci;
