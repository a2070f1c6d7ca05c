//! A generational store: values behind handles, with slot reuse.

use crate::collections::store_model::{next_generation, SlotState, StoreModel};
use crate::handle::{Handle, HandleId};
use vstd::prelude::*;

verus! {

/// One slot of the backing array.
enum Entry<T> {
    /// The slot holds a value.
    Occupied { value: T, generation: u32 },
    /// The slot is empty and links to the next empty slot.
    Vacant { next_free: Option<u32>, generation: u32 },
}

impl<T> Entry<T> {
    spec fn state(self) -> SlotState<T> {
        match self {
            Entry::Occupied { value, generation } => SlotState::Occupied { value, generation },
            Entry::Vacant { generation, .. } => SlotState::Vacant { generation },
        }
    }
}

/// The link a free-list member at position `k` must carry.
spec fn link_after(free: Seq<u32>, k: int) -> Option<u32> {
    if k + 1 < free.len() {
        Some(free[k + 1])
    } else {
        None
    }
}

/// The model that a backing array and a free list stand for.
spec fn model_of<T>(entries: Seq<Entry<T>>, free: Seq<u32>) -> StoreModel<T> {
    StoreModel { slots: entries.map_values(|e: Entry<T>| e.state()), free }
}

/// The backing array threads its vacant slots in the order `free` gives.
spec fn threaded<T>(entries: Seq<Entry<T>>, free: Seq<u32>) -> bool {
    forall|k: int|
        0 <= k < free.len() ==> (#[trigger] entries[free[k] as int]) == (Entry::<T>::Vacant {
            next_free: link_after(free, k),
            generation: entries[free[k] as int].state().generation(),
        })
}

/// Writing a value into an occupied slot changes the model by `set` and
/// leaves the threading of the vacant slots alone.
proof fn lemma_write_value<T>(entries: Seq<Entry<T>>, free: Seq<u32>, index: int, e: Entry<T>)
    requires
        model_of(entries, free).wf(),
        threaded(entries, free),
        0 <= index < entries.len(),
        entries[index] is Occupied,
        e is Occupied,
        e->Occupied_generation == entries[index]->Occupied_generation,
    ensures
        model_of(entries.update(index, e), free) == model_of(entries, free).set(
            HandleId { index: index as u32, generation: e->Occupied_generation },
            e->Occupied_value,
        ),
        model_of(entries.update(index, e), free).wf(),
        model_of(entries.update(index, e), free).len() == model_of(entries, free).len(),
        threaded(entries.update(index, e), free),
{
    let before = model_of(entries, free);
    let h = HandleId { index: index as u32, generation: e->Occupied_generation };
    assert(model_of(entries.update(index, e), free).slots =~= before.set(
        h,
        e->Occupied_value,
    ).slots);
    before.lemma_set(h, e->Occupied_value);
    assert forall|k: int| 0 <= k < free.len() implies (#[trigger] entries.update(
        index,
        e,
    )[free[k] as int]) == entries[free[k] as int] by {
        assert(before.is_vacant(free[k] as int));
    }
}

/// A store that hands out a [`Handle`] for each inserted value.
///
/// Removing a value vacates its slot and advances the slot's generation, so
/// handles issued earlier for that slot stop being accepted. Vacant slots are
/// threaded into a free list and reused, most recently vacated first.
pub struct SlotMap<T> {
    entries: Vec<Entry<T>>,
    free_head: Option<u32>,
    len: usize,
    free: Ghost<Seq<u32>>,
}

impl<T> View for SlotMap<T> {
    type V = StoreModel<T>;

    closed spec fn view(&self) -> StoreModel<T> {
        model_of(self.entries@, self.free@)
    }
}

impl<T> SlotMap<T> {
    /// The backing array threads its vacant slots in the order the model's
    /// free list gives, and the live count is kept.
    pub closed spec fn linked(&self) -> bool {
        &&& self.len == self@.len()
        &&& self.free_head == link_after(self.free@, -1)
        &&& threaded(self.entries@, self.free@)
    }

    /// The store is well formed: its model is, and the backing array agrees
    /// with it. Every operation keeps this.
    pub open spec fn wf(&self) -> bool {
        &&& self@.wf()
        &&& self.linked()
    }

    /// Creates an empty store.
    pub fn new() -> (s: Self)
        ensures
            s@ == StoreModel::<T>::empty(),
            s.wf(),
    {
        let s = SlotMap { entries: Vec::new(), free_head: None, len: 0, free: Ghost(Seq::empty()) };
        assert(s@.slots =~= Seq::empty());
        s
    }

    /// Creates an empty store whose backing array has room for `capacity`
    /// slots before it grows.
    pub(crate) fn with_capacity(capacity: usize) -> (s: Self)
        ensures
            s@ == StoreModel::<T>::empty(),
            s.wf(),
    {
        let s = SlotMap {
            entries: Vec::with_capacity(capacity),
            free_head: None,
            len: 0,
            free: Ghost(Seq::empty()),
        };
        assert(s@.slots =~= Seq::empty());
        s
    }

    /// Whether an insertion finds a slot: a vacant one to reuse, or an index
    /// below the reserved one to grow into.
    pub fn has_room(&self) -> (b: bool)
        requires
            self.wf(),
        ensures
            b == self@.has_room(),
    {
        self.free_head.is_some() || self.entries.len() < u32::MAX as usize
    }

    /// Stores `value` and returns the handle for it.
    ///
    /// The most recently vacated slot is reused at its stored generation; if
    /// no slot is vacant, a new one is appended at generation zero.
    pub fn insert(&mut self, value: T) -> (h: Handle<T>)
        requires
            old(self).wf(),
            old(self)@.has_room(),
        ensures
            final(self).wf(),
            h@ == old(self)@.next_handle(),
            final(self)@ == old(self)@.insert(value),
            final(self)@.get(h@) == Some(value),
            final(self)@.len() == old(self)@.len() + 1,
    {
        let ghost before = self@;
        let ghost old_free = self.free@;
        let ghost old_entries = self.entries@;
        proof {
            before.lemma_insert(value);
            before.lemma_free_bounded();
        }
        match self.free_head {
            Some(free_index) => {
                let idx = free_index as usize;
                assert(before.is_vacant(old_free[0] as int));
                assert(old_entries[old_free[0] as int] is Vacant);
                let (next_free, generation) = match &self.entries[idx] {
                    Entry::Vacant { next_free, generation } => (*next_free, *generation),
                    Entry::Occupied { .. } => unreached(),
                };
                self.entries[idx] = Entry::Occupied { value, generation };
                self.free_head = next_free;
                self.len += 1;
                proof {
                    self.free@ = old_free.subrange(1, old_free.len() as int);
                    let new_free = self.free@;
                    assert(self@.slots =~= before.insert(value).slots);
                    assert forall|k: int| 0 <= k < new_free.len() implies (
                    #[trigger] self.entries@[new_free[k] as int]) == (Entry::<T>::Vacant {
                        next_free: link_after(new_free, k),
                        generation: self.entries@[new_free[k] as int].state().generation(),
                    }) by {
                        assert(new_free[k] == old_free[k + 1]);
                        assert(old_free[k + 1] != old_free[0]);
                        assert(link_after(new_free, k) == link_after(old_free, k + 1));
                        assert(self.entries@[new_free[k] as int] == old_entries[old_free[k
                            + 1] as int]);
                    }
                }
                Handle::new(free_index, generation)
            },
            None => {
                let index = self.entries.len() as u32;
                self.entries.push(Entry::Occupied { value, generation: 0 });
                self.len += 1;
                proof {
                    assert(self@.slots =~= before.insert(value).slots);
                }
                Handle::new(index, 0)
            },
        }
    }

    /// Removes and returns the value behind `handle`.
    ///
    /// A handle that is not valid (index out of range, slot vacant, or another
    /// generation) leaves the store untouched and yields `None`. Otherwise the
    /// slot is vacated at the next generation and becomes the first to be
    /// reused.
    pub fn remove(&mut self, handle: Handle<T>) -> (r: Option<T>)
        requires
            old(self).wf(),
        ensures
            final(self).wf(),
            r == old(self)@.get(handle@),
            final(self)@ == old(self)@.remove(handle@),
            r is Some ==> final(self)@.len() == old(self)@.len() - 1,
            !final(self)@.contains(handle@),
    {
        let ghost before = self@;
        let ghost old_free = self.free@;
        let ghost old_entries = self.entries@;
        proof {
            before.lemma_remove(handle@);
            before.lemma_free_bounded();
        }
        let index = handle.index() as usize;
        if index >= self.entries.len() {
            return None;
        }
        let new_generation = match &self.entries[index] {
            Entry::Occupied { generation, .. } => {
                if *generation != handle.generation() {
                    return None;
                }
                generation.wrapping_add(1)
            },
            Entry::Vacant { .. } => {
                return None;
            },
        };
        assert(before.contains(handle@));
        assert(new_generation == next_generation(handle@.generation));
        let mut taken = Entry::Vacant { next_free: self.free_head, generation: new_generation };
        std::mem::swap(&mut self.entries[index], &mut taken);
        self.free_head = Some(handle.index());
        self.len -= 1;
        proof {
            self.free@ = seq![handle@.index] + old_free;
            let new_free = self.free@;
            assert(self@.slots =~= before.remove(handle@).slots);
            assert forall|k: int| 0 <= k < new_free.len() implies (
            #[trigger] self.entries@[new_free[k] as int]) == (Entry::<T>::Vacant {
                next_free: link_after(new_free, k),
                generation: self.entries@[new_free[k] as int].state().generation(),
            }) by {
                if k > 0 {
                    assert(new_free[k] == old_free[k - 1]);
                    assert(before.is_vacant(old_free[k - 1] as int));
                    assert(link_after(new_free, k) == link_after(old_free, k - 1));
                    assert(self.entries@[new_free[k] as int] == old_entries[old_free[k
                        - 1] as int]);
                } else {
                    assert(link_after(new_free, 0) == link_after(old_free, -1));
                }
            }
        }
        match taken {
            Entry::Occupied { value, .. } => Some(value),
            Entry::Vacant { .. } => unreached(),
        }
    }

    /// Mutable access to the value behind `handle`, if the handle is valid.
    ///
    /// Whatever is written through the returned reference replaces the value;
    /// nothing else in the store changes.
    pub fn get_mut(&mut self, handle: Handle<T>) -> (r: Option<&mut T>)
        requires
            old(self).wf(),
        ensures
            final(self).wf(),
            match r {
                Some(v) => old(self)@.get(handle@) == Some(*v) && final(self)@ == old(self)@.set(
                    handle@,
                    *final(v),
                ),
                None => old(self)@.get(handle@) is None && final(self)@ == old(self)@,
            },
    {
        let index = handle.index() as usize;
        if index >= self.entries.len() {
            return None;
        }
        let valid = match &self.entries[index] {
            Entry::Occupied { generation, .. } => *generation == handle.generation(),
            Entry::Vacant { .. } => false,
        };
        if !valid {
            return None;
        }
        let ghost old_entries = self.entries@;
        let ghost free = self.free@;
        proof {
            assert forall|e: Entry<T>|
                old_entries[index as int] is Occupied && e is Occupied && e->Occupied_generation
                    == old_entries[index as int]->Occupied_generation implies {
                    &&& model_of(#[trigger] old_entries.update(index as int, e), free) == model_of(
                        old_entries,
                        free,
                    ).set(
                        HandleId { index: index as u32, generation: e->Occupied_generation },
                        e->Occupied_value,
                    )
                    &&& model_of(old_entries.update(index as int, e), free).wf()
                    &&& model_of(old_entries.update(index as int, e), free).len() == model_of(
                        old_entries,
                        free,
                    ).len()
                    &&& threaded(old_entries.update(index as int, e), free)
                } by {
                lemma_write_value(old_entries, free, index as int, e);
            }
        }
        match &mut self.entries[index] {
            Entry::Occupied { value, .. } => Some(value),
            Entry::Vacant { .. } => None,
        }
    }

    /// The number of live values.
    pub fn len(&self) -> (n: usize)
        requires
            self.wf(),
        ensures
            n == self@.len(),
    {
        self.len
    }

    /// Whether the store holds no live value.
    pub fn is_empty(&self) -> (b: bool)
        requires
            self.wf(),
        ensures
            b == (self@.len() == 0),
    {
        self.len == 0
    }

    /// Whether `handle` is valid for this store.
    pub fn contains(&self, handle: Handle<T>) -> (b: bool)
        ensures
            b == self@.contains(handle@),
    {
        let index = handle.index() as usize;
        if index >= self.entries.len() {
            return false;
        }
        match &self.entries[index] {
            Entry::Occupied { generation, .. } => *generation == handle.generation(),
            Entry::Vacant { .. } => false,
        }
    }

    /// The value behind `handle`, if the handle is valid.
    pub fn get(&self, handle: Handle<T>) -> (r: Option<&T>)
        ensures
            r == match self@.get(handle@) {
                Some(v) => Some(&v),
                None => None,
            },
    {
        let index = handle.index() as usize;
        if index >= self.entries.len() {
            return None;
        }
        match &self.entries[index] {
            Entry::Occupied { value, generation } => {
                if *generation == handle.generation() {
                    Some(value)
                } else {
                    None
                }
            },
            Entry::Vacant { .. } => None,
        }
    }
}

impl<T> Default for SlotMap<T> {
    fn default() -> (s: Self)
        ensures
            s@ == StoreModel::<T>::empty(),
            s.wf(),
    {
        SlotMap::new()
    }
}

} // verus!
