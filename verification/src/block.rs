//! Blocks of the chain, and the precommits that prove one.
use vstd::prelude::*;
use crate::consensus::Precommit;

verus! {

/// A block: its schema version, its height, the number of its
/// transactions, and the hashes that link it to the chain and to its
/// content.
#[derive(Debug)]
pub struct Block {
    /// Information schema version.
    pub version: [u8; 4],
    /// Height of the current block
    pub height: i32,
    /// Number of transactions in block.
    pub tx_count: u32,
    /// Hash link to the previous block in blockchain.
    pub prev_hash: crate::hash::Hash,
    /// Root hash of the merkle tree of the transactions of the block.
    pub tx_hash: crate::hash::Hash,
    /// Hash of the state after applying the transactions of the block.
    pub state_hash: crate::hash::Hash,
}

/// Block with pre-commits.
#[derive(Debug)]
pub struct BlockProof {
    /// Block.
    pub block: Block,
    /// List of pre-commits for the block.
    pub precommits: Vec<Precommit>,
}

} // verus!
