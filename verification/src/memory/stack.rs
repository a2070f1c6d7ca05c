//! A stack allocator: nested scopes over one buffer.

use vstd::prelude::*;

verus! {

/// What a stack allocator is: the size of its buffer and the sizes that its
/// open scopes recorded, outermost first.
pub struct StackModel {
    pub size: nat,
    pub markers: Seq<nat>,
}

impl StackModel {
    /// The allocator after a scope is opened: the current size is recorded.
    pub open spec fn push_scope(self) -> Self {
        StackModel { size: self.size, markers: self.markers.push(self.size) }
    }

    /// The allocator after the innermost scope is closed: the buffer is cut
    /// back to the size the scope recorded, if it is longer. With no scope
    /// open nothing changes.
    pub open spec fn pop_scope(self) -> Self {
        if self.markers.len() == 0 {
            self
        } else {
            StackModel {
                size: if self.markers.last() <= self.size {
                    self.markers.last()
                } else {
                    self.size
                },
                markers: self.markers.drop_last(),
            }
        }
    }

    /// Closing a scope right after opening it changes nothing.
    pub proof fn lemma_push_then_pop(self)
        ensures
            self.push_scope().pop_scope() == self,
    {
        assert(self.markers.push(self.size).drop_last() =~= self.markers);
    }
}

/// An allocator whose buffer is released scope by scope.
pub struct StackAllocator {
    buffer: Vec<u8>,
    markers: Vec<usize>,
}

impl View for StackAllocator {
    type V = StackModel;

    closed spec fn view(&self) -> StackModel {
        StackModel {
            size: self.buffer@.len(),
            markers: self.markers@.map_values(|m: usize| m as nat),
        }
    }
}

impl StackAllocator {
    /// Creates an allocator with a buffer of `capacity` bytes and no scope
    /// open.
    pub fn new(capacity: usize) -> (a: Self)
        ensures
            a@ == (StackModel { size: capacity as nat, markers: Seq::empty() }),
    {
        let a = StackAllocator { buffer: vec![0; capacity], markers: Vec::new() };
        assert(a@.markers =~= Seq::empty());
        a
    }

    /// Opens a scope: records the buffer's current size.
    pub fn push_scope(&mut self)
        ensures
            final(self)@ == old(self)@.push_scope(),
    {
        self.markers.push(self.buffer.len());
        assert(self@.markers =~= old(self)@.push_scope().markers);
    }

    /// Closes the innermost scope: cuts the buffer back to the size the scope
    /// recorded. With no scope open nothing changes.
    pub fn pop_scope(&mut self)
        ensures
            final(self)@ == old(self)@.pop_scope(),
    {
        if let Some(marker) = self.markers.pop() {
            self.buffer.truncate(marker);
            assert(self@.markers =~= old(self)@.pop_scope().markers);
        } else {
            assert(self@.markers =~= old(self)@.markers);
        }
    }
}

} // verus!
