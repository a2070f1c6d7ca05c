//! A pool allocator: blocks of one fixed size.

use vstd::prelude::*;

verus! {

/// What a pool allocator is, as numbers: the size of its blocks and how many
/// blocks it owns.
pub struct PoolModel {
    pub block_size: nat,
    pub blocks: nat,
}

/// An allocator for objects of one fixed size.
pub struct PoolAllocator {
    block_size: usize,
    blocks: Vec<Vec<u8>>,
}

impl View for PoolAllocator {
    type V = PoolModel;

    closed spec fn view(&self) -> PoolModel {
        PoolModel { block_size: self.block_size as nat, blocks: self.blocks@.len() }
    }
}

impl PoolAllocator {
    /// Creates an allocator for blocks of `block_size` bytes that owns no
    /// block yet.
    pub fn new(block_size: usize) -> (a: Self)
        ensures
            a@ == (PoolModel { block_size: block_size as nat, blocks: 0 }),
    {
        PoolAllocator { block_size, blocks: Vec::new() }
    }

    /// The size of a block, in bytes.
    pub fn block_size(&self) -> (n: usize)
        ensures
            n == self@.block_size,
    {
        self.block_size
    }
}

} // verus!
