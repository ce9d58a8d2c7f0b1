//! A single-node blockchain: pending transactions are sealed into blocks that
//! are linked by header hashes, summarised by a Merkle root and mined by a
//! nonce search against a difficulty target.

pub mod chain;
pub mod hasher;
pub mod merkle;
pub mod types;
pub mod work;
