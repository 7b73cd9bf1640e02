//! References to blocks of L1 and L2.

use vstd::prelude::*;

use crate::common::fixed_bytes::B256;

verus! {

/// A block's number and hash.
#[derive(Clone, Copy, Debug, PartialEq, Eq)]
pub struct BlockNumHash {
    pub number: u64,
    pub hash: B256,
}

/// A block as its header describes it.
#[derive(Clone, Copy, Debug, PartialEq, Eq)]
pub struct BlockInfo {
    pub hash: B256,
    pub number: u64,
    pub parent_hash: B256,
    pub timestamp: u64,
}

/// An L2 block with the L1 block that it was derived from.
#[derive(Clone, Copy, Debug, PartialEq, Eq)]
pub struct L2BlockInfo {
    pub block_info: BlockInfo,
    pub l1_origin: BlockNumHash,
    pub seq_num: u64,
}

/// A block by its number, or by its place in the chain.
#[derive(Clone, Copy, Debug, PartialEq, Eq)]
pub enum BlockNumberOrTag {
    Latest,
    Finalized,
    Safe,
    Earliest,
    Pending,
    Number(u64),
}

} // verus!
