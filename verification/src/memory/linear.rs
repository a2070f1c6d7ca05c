//! A linear allocator: one buffer, handed out front to back.

use vstd::prelude::*;

verus! {

/// What a linear allocator is, as numbers: how many bytes it owns and how
/// many of them are handed out.
pub struct LinearModel {
    pub capacity: nat,
    pub used: nat,
}

/// An allocator that hands out its buffer front to back and takes it all back
/// at once.
pub struct LinearAllocator {
    buffer: Vec<u8>,
    offset: usize,
}

impl View for LinearAllocator {
    type V = LinearModel;

    closed spec fn view(&self) -> LinearModel {
        LinearModel { capacity: self.buffer@.len(), used: self.offset as nat }
    }
}

impl LinearAllocator {
    #[verifier::type_invariant]
    spec fn within_buffer(self) -> bool {
        self.offset <= self.buffer@.len()
    }

    /// Creates an allocator that owns `capacity` bytes, none handed out.
    pub fn new(capacity: usize) -> (a: Self)
        ensures
            a@ == (LinearModel { capacity: capacity as nat, used: 0 }),
    {
        LinearAllocator { buffer: vec![0; capacity], offset: 0 }
    }

    /// Takes every byte back.
    pub fn reset(&mut self)
        ensures
            final(self)@ == (LinearModel { capacity: old(self)@.capacity, used: 0 }),
    {
        self.offset = 0;
    }

    /// The number of bytes not handed out.
    pub fn remaining(&self) -> (n: usize)
        ensures
            self@.used <= self@.capacity,
            n == self@.capacity - self@.used,
    {
        proof {
            use_type_invariant(self);
        }
        self.buffer.len() - self.offset
    }
}

impl Default for LinearAllocator {
    /// An allocator that owns one mebibyte.
    fn default() -> (a: Self)
        ensures
            a@ == (LinearModel { capacity: 1048576, used: 0 }),
    {
        LinearAllocator::new(1024 * 1024)
    }
}

} // verus!
