//! A verified bottom-up binary hash-tree (Merkle tree) builder, together
//! with a handful of small verified blockchain-flavoured data structures
//! (accounts, a mempool, a generic ledger, a validator, a linked list).
//!
//! The centrepiece is [`merkle::MerkleTree`]: it consumes an ordered
//! sequence of data blocks and commits to them (and to their order) with a
//! single root digest, computed by pairwise bottom-up reduction with
//! duplicate-last parity padding.

pub mod account;
pub mod chain;
pub mod digest;
pub mod ledger;
pub mod list;
pub mod mempool;
pub mod merkle;
pub mod rewards;
pub mod validator;
