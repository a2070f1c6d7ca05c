//! Generational handles: an index paired with a generation counter.

use std::marker::PhantomData;
use vstd::prelude::*;
use vstd::std_specs::cmp::PartialEqSpecImpl;

verus! {

/// The mathematical content of a handle: the slot it names and the
/// generation it was issued at.
pub struct HandleId {
    pub index: u32,
    pub generation: u32,
}

/// The index that stands for "no resource"; no slot ever has it.
pub open spec fn invalid_index() -> u32 {
    u32::MAX
}

/// A typed reference to a stored value of type `T`.
///
/// A handle carries no address. It names a slot by `index` and remembers the
/// `generation` the slot had when the handle was issued; a store accepts the
/// handle only while both still match.
#[derive(Debug)]
pub struct Handle<T> {
    index: u32,
    generation: u32,
    _marker: PhantomData<T>,
}

impl<T> View for Handle<T> {
    type V = HandleId;

    closed spec fn view(&self) -> HandleId {
        HandleId { index: self.index, generation: self.generation }
    }
}

impl<T> Handle<T> {
    /// Builds a handle from its two parts.
    pub fn new(index: u32, generation: u32) -> (h: Self)
        ensures
            h@ == (HandleId { index, generation }),
    {
        Handle { index, generation, _marker: PhantomData }
    }

    /// The slot this handle names.
    pub fn index(&self) -> (i: u32)
        ensures
            i == self@.index,
    {
        self.index
    }

    /// The generation this handle was issued at.
    pub fn generation(&self) -> (g: u32)
        ensures
            g == self@.generation,
    {
        self.generation
    }
}

impl<T> Clone for Handle<T> {
    fn clone(&self) -> (c: Self)
        ensures
            c@ == self@,
    {
        Handle { index: self.index, generation: self.generation, _marker: PhantomData }
    }
}

impl<T> Copy for Handle<T> {}

impl<T> PartialEq for Handle<T> {
    fn eq(&self, other: &Self) -> (r: bool) {
        self.index == other.index && self.generation == other.generation
    }
}

impl<T> Eq for Handle<T> {}

/// `u32`'s `Hash::hash`: feeds the number to the hasher. Nothing is claimed
/// of the hasher's state.
pub assume_specification<H: std::hash::Hasher>[ <u32 as std::hash::Hash>::hash ](
    value: &u32,
    state: &mut H,
)
;

impl<T> std::hash::Hash for Handle<T> {
    fn hash<H: std::hash::Hasher>(&self, state: &mut H) {
        self.index.hash(state);
        self.generation.hash(state);
    }
}

impl<T> PartialEqSpecImpl for Handle<T> {
    open spec fn obeys_eq_spec() -> bool {
        true
    }

    open spec fn eq_spec(&self, other: &Self) -> bool {
        self@ == other@
    }
}

} // verus!
