//! An object pool: the generational store under its pool interface.

use crate::collections::slot_map::SlotMap;
use crate::collections::store_model::StoreModel;
use crate::handle::Handle;
use vstd::prelude::*;

verus! {

/// A pool of values named by handles.
///
/// A pool is a generational store: it issues, checks and invalidates handles
/// exactly as [`SlotMap`] does, and has the same model.
pub struct Pool<T> {
    slots: SlotMap<T>,
}

impl<T> View for Pool<T> {
    type V = StoreModel<T>;

    closed spec fn view(&self) -> StoreModel<T> {
        self.slots@
    }
}

impl<T> Pool<T> {
    /// The pool is well formed; every operation keeps this.
    pub closed spec fn wf(&self) -> bool {
        self.slots.wf()
    }

    /// A well-formed pool has a well-formed model.
    pub proof fn lemma_wf_model(&self)
        requires
            self.wf(),
        ensures
            self@.wf(),
    {
    }

    /// Creates an empty pool.
    pub fn new() -> (p: Self)
        ensures
            p@ == StoreModel::<T>::empty(),
            p.wf(),
    {
        Pool { slots: SlotMap::new() }
    }

    /// Creates an empty pool with room for `capacity` slots before its
    /// backing array grows.
    pub fn with_capacity(capacity: usize) -> (p: Self)
        ensures
            p@ == StoreModel::<T>::empty(),
            p.wf(),
    {
        Pool { slots: SlotMap::with_capacity(capacity) }
    }

    /// Whether an insertion finds a slot.
    pub fn has_room(&self) -> (b: bool)
        requires
            self.wf(),
        ensures
            b == self@.has_room(),
    {
        self.slots.has_room()
    }

    /// Stores `value` and returns the handle for it.
    pub fn insert(&mut self, value: T) -> (h: Handle<T>)
        requires
            old(self).wf(),
            old(self)@.has_room(),
        ensures
            final(self).wf(),
            h@ == old(self)@.next_handle(),
            final(self)@ == old(self)@.insert(value),
            final(self)@.get(h@) == Some(value),
            final(self)@.len() == old(self)@.len() + 1,
    {
        self.slots.insert(value)
    }

    /// Removes and returns the value behind `handle`; a handle that is not
    /// valid leaves the pool untouched and yields `None`.
    pub fn remove(&mut self, handle: Handle<T>) -> (r: Option<T>)
        requires
            old(self).wf(),
        ensures
            final(self).wf(),
            r == old(self)@.get(handle@),
            final(self)@ == old(self)@.remove(handle@),
            r is Some ==> final(self)@.len() == old(self)@.len() - 1,
            !final(self)@.contains(handle@),
    {
        self.slots.remove(handle)
    }

    /// The value behind `handle`, if the handle is valid.
    pub fn get(&self, handle: Handle<T>) -> (r: Option<&T>)
        ensures
            r == match self@.get(handle@) {
                Some(v) => Some(&v),
                None => None,
            },
    {
        self.slots.get(handle)
    }

    /// Mutable access to the value behind `handle`, if the handle is valid.
    pub fn get_mut(&mut self, handle: Handle<T>) -> (r: Option<&mut T>)
        requires
            old(self).wf(),
        ensures
            final(self).wf(),
            match r {
                Some(v) => old(self)@.get(handle@) == Some(*v) && final(self)@ == old(self)@.set(
                    handle@,
                    *final(v),
                ),
                None => old(self)@.get(handle@) is None && final(self)@ == old(self)@,
            },
    {
        self.slots.get_mut(handle)
    }

    /// The number of live values.
    pub fn len(&self) -> (n: usize)
        requires
            self.wf(),
        ensures
            n == self@.len(),
    {
        self.slots.len()
    }

    /// Whether the pool holds no live value.
    pub fn is_empty(&self) -> (b: bool)
        requires
            self.wf(),
        ensures
            b == (self@.len() == 0),
    {
        self.slots.is_empty()
    }
}

impl<T> Default for Pool<T> {
    fn default() -> (p: Self)
        ensures
            p@ == StoreModel::<T>::empty(),
            p.wf(),
    {
        Pool::new()
    }
}

} // verus!
