//! Plain identifiers.

use vstd::prelude::*;

verus! {

/// An identifier: a nonzero number names something, zero names nothing.
#[derive(Debug, Clone, Copy, PartialEq, Eq, Hash, Structural)]
pub struct Id(u64);

impl View for Id {
    type V = u64;

    closed spec fn view(&self) -> u64 {
        self.0
    }
}

impl Id {
    /// The identifier with the given number.
    pub fn from_raw(value: u64) -> (id: Self)
        ensures
            id@ == value,
    {
        Id(value)
    }

    /// The identifier's number.
    pub fn raw(&self) -> (value: u64)
        ensures
            value == self@,
    {
        self.0
    }

    /// The identifier that names nothing.
    pub fn invalid() -> (id: Self)
        ensures
            id@ == 0,
    {
        Id(0)
    }

    /// Whether this identifier names nothing.
    pub fn is_invalid(&self) -> (b: bool)
        ensures
            b == (self@ == 0),
    {
        self.0 == 0
    }
}

/// An identifier for slot-based structures: an index and the generation the
/// slot had when the identifier was made.
#[derive(Debug, Clone, Copy, PartialEq, Eq, Hash, Structural)]
pub struct GenerationalId {
    index: u32,
    generation: u32,
}

impl View for GenerationalId {
    type V = (u32, u32);

    closed spec fn view(&self) -> (u32, u32) {
        (self.index, self.generation)
    }
}

impl GenerationalId {
    /// The identifier with the given parts.
    pub fn new(index: u32, generation: u32) -> (id: Self)
        ensures
            id@ == (index, generation),
    {
        GenerationalId { index, generation }
    }

    /// The index part.
    pub fn index(&self) -> (i: u32)
        ensures
            i == self@.0,
    {
        self.index
    }

    /// The generation part.
    pub fn generation(&self) -> (g: u32)
        ensures
            g == self@.1,
    {
        self.generation
    }
}

} // verus!
