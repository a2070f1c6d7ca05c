//! The mathematical model of a generational store: a sequence of slots and
//! the order in which vacant slots will be reused.

use crate::handle::HandleId;
use vstd::prelude::*;
use vstd::relations::injective;
use vstd::set_lib::{lemma_int_range, lemma_len_subset, set_int_range};

verus! {

/// What one slot holds.
pub enum SlotState<T> {
    /// A live value, and the generation its handle carries.
    Occupied { value: T, generation: u32 },
    /// No value; the generation the next value stored here will get.
    Vacant { generation: u32 },
}

impl<T> SlotState<T> {
    /// The generation stored in the slot, whatever its state.
    pub open spec fn generation(self) -> u32 {
        match self {
            SlotState::Occupied { generation, .. } => generation,
            SlotState::Vacant { generation } => generation,
        }
    }
}

/// The successor of a generation: one more, wrapping to zero after the
/// largest value.
pub open spec fn next_generation(g: u32) -> u32 {
    if g == u32::MAX {
        0
    } else {
        (g + 1) as u32
    }
}

/// A generational store as a mathematical value.
pub struct StoreModel<T> {
    /// The slots, by index.
    pub slots: Seq<SlotState<T>>,
    /// The vacant indices; the first one is reused next.
    pub free: Seq<u32>,
}

impl<T> StoreModel<T> {
    /// The store with no slots.
    pub open spec fn empty() -> Self {
        StoreModel { slots: Seq::empty(), free: Seq::empty() }
    }

    /// Whether `i` is the index of a vacant slot.
    pub open spec fn is_vacant(self, i: int) -> bool {
        0 <= i < self.slots.len() && self.slots[i] is Vacant
    }

    /// The free list names exactly the vacant slots, each once, and every
    /// index fits a handle without reaching the reserved "no resource" index.
    pub open spec fn wf(self) -> bool {
        &&& self.slots.len() <= u32::MAX
        &&& self.free.no_duplicates()
        &&& forall|k: int| 0 <= k < self.free.len() ==> self.is_vacant(#[trigger] self.free[k] as int)
        &&& forall|i: int| #[trigger] self.is_vacant(i) ==> self.free.contains(i as u32)
    }

    /// A handle is valid iff its slot exists, is occupied and stores the
    /// handle's generation.
    pub open spec fn contains(self, h: HandleId) -> bool {
        &&& h.index < self.slots.len()
        &&& self.slots[h.index as int] matches SlotState::Occupied { generation, .. }
        &&& generation == h.generation
    }

    /// The value a handle stands for; `None` for a handle that is not valid.
    pub open spec fn get(self, h: HandleId) -> Option<T> {
        if self.contains(h) {
            Some(self.slots[h.index as int]->Occupied_value)
        } else {
            None
        }
    }

    /// The number of live values.
    pub open spec fn len(self) -> nat {
        (self.slots.len() - self.free.len()) as nat
    }

    /// An insertion finds a slot: a vacant one to reuse, or an index below
    /// the reserved one to grow into.
    pub open spec fn has_room(self) -> bool {
        self.free.len() > 0 || self.slots.len() < u32::MAX
    }

    /// The handle the next insertion returns: the head of the free list at
    /// that slot's stored generation, or a new last slot at generation zero.
    pub open spec fn next_handle(self) -> HandleId {
        if self.free.len() > 0 {
            HandleId {
                index: self.free[0],
                generation: self.slots[self.free[0] as int].generation(),
            }
        } else {
            HandleId { index: self.slots.len() as u32, generation: 0 }
        }
    }

    /// The store after inserting `value`.
    pub open spec fn insert(self, value: T) -> Self {
        let h = self.next_handle();
        let slot = SlotState::Occupied { value, generation: h.generation };
        if self.free.len() > 0 {
            StoreModel {
                slots: self.slots.update(h.index as int, slot),
                free: self.free.subrange(1, self.free.len() as int),
            }
        } else {
            StoreModel { slots: self.slots.push(slot), free: self.free }
        }
    }

    /// The store after removing through `h`: unchanged for a handle that is
    /// not valid; otherwise the slot is vacated at the next generation and
    /// becomes the first to be reused.
    pub open spec fn remove(self, h: HandleId) -> Self {
        if self.contains(h) {
            StoreModel {
                slots: self.slots.update(
                    h.index as int,
                    SlotState::Vacant { generation: next_generation(h.generation) },
                ),
                free: seq![h.index] + self.free,
            }
        } else {
            self
        }
    }

    /// The store with the value behind the valid handle `h` replaced.
    pub open spec fn set(self, h: HandleId, value: T) -> Self {
        StoreModel {
            slots: self.slots.update(
                h.index as int,
                SlotState::Occupied { value, generation: h.generation },
            ),
            free: self.free,
        }
    }
}

/// A sequence of distinct indices below `n`, none of them `skip`, has fewer
/// than `n` members when `skip` itself is below `n`, and at most `n` anyway.
proof fn lemma_distinct_indices_bounded(free: Seq<u32>, n: int, skip: int)
    requires
        0 <= n,
        free.no_duplicates(),
        forall|k: int| 0 <= k < free.len() ==> (#[trigger] free[k]) < n && free[k] != skip,
    ensures
        free.len() <= n,
        0 <= skip < n ==> free.len() < n,
{
    let f = |x: u32| x as int;
    assert(injective(f));
    free.lemma_no_duplicates_injective(f);
    let ints = free.map_values(f);
    ints.unique_seq_to_set();
    lemma_int_range(0, n);
    let range = set_int_range(0, n);
    assert forall|x: int| ints.to_set().contains(x) implies range.remove(skip).contains(x) by {
        let k = choose|k: int| 0 <= k < ints.len() && ints[k] == x;
        assert(ints[k] == free[k] as int);
    }
    if 0 <= skip < n {
        lemma_len_subset(ints.to_set(), range.remove(skip));
    } else {
        assert(range.remove(skip) =~= range);
        lemma_len_subset(ints.to_set(), range);
    }
}

impl<T> StoreModel<T> {
    /// In a well-formed store the free list is no longer than the slot array,
    /// and shorter when some handle is valid.
    pub proof fn lemma_free_bounded(self)
        requires
            self.wf(),
        ensures
            self.free.len() <= self.slots.len(),
            forall|h: HandleId| self.contains(h) ==> self.free.len() < self.slots.len(),
    {
        lemma_distinct_indices_bounded(self.free, self.slots.len() as int, -1);
        assert forall|h: HandleId| self.contains(h) implies self.free.len()
            < self.slots.len() by {
            assert forall|k: int| 0 <= k < self.free.len() implies (#[trigger] self.free[k])
                < self.slots.len() && self.free[k] != h.index by {
                assert(self.is_vacant(self.free[k] as int));
            }
            lemma_distinct_indices_bounded(self.free, self.slots.len() as int, h.index as int);
        }
    }

    /// Insertion keeps a store well formed, makes the returned handle valid
    /// for the inserted value, and adds one to the live count.
    pub proof fn lemma_insert(self, value: T)
        requires
            self.wf(),
            self.has_room(),
        ensures
            self.insert(value).wf(),
            self.insert(value).get(self.next_handle()) == Some(value),
            self.insert(value).len() == self.len() + 1,
            !self.contains(self.next_handle()),
    {
        self.lemma_free_bounded();
        let after = self.insert(value);
        let h = self.next_handle();
        if self.free.len() > 0 {
            assert(self.is_vacant(self.free[0] as int));
            assert forall|k: int| 0 <= k < after.free.len() implies after.is_vacant(
                #[trigger] after.free[k] as int,
            ) by {
                assert(after.free[k] == self.free[k + 1]);
                assert(self.is_vacant(self.free[k + 1] as int));
            }
            assert forall|i: int| #[trigger] after.is_vacant(i) implies after.free.contains(
                i as u32,
            ) by {
                assert(self.is_vacant(i));
                let j = choose|j: int| 0 <= j < self.free.len() && self.free[j] == i as u32;
                assert(after.free[j - 1] == i as u32);
            }
        } else {
            assert forall|i: int| #[trigger] after.is_vacant(i) implies after.free.contains(
                i as u32,
            ) by {
                assert(self.is_vacant(i));
            }
        }
    }

    /// Replacing the value behind a valid handle keeps a store well formed
    /// and changes neither the live count nor which handles are valid.
    pub proof fn lemma_set(self, h: HandleId, value: T)
        requires
            self.wf(),
            self.contains(h),
        ensures
            self.set(h, value).wf(),
            self.set(h, value).get(h) == Some(value),
            self.set(h, value).len() == self.len(),
            forall|g: HandleId| self.set(h, value).contains(g) == self.contains(g),
            forall|g: HandleId| g != h ==> self.set(h, value).get(g) == self.get(g),
    {
        let after = self.set(h, value);
        assert forall|k: int| 0 <= k < after.free.len() implies after.is_vacant(
            #[trigger] after.free[k] as int,
        ) by {
            assert(self.is_vacant(self.free[k] as int));
        }
        assert forall|i: int| #[trigger] after.is_vacant(i) implies after.free.contains(
            i as u32,
        ) by {
            assert(self.is_vacant(i));
        }
    }

    /// Removal keeps a store well formed. Through a valid handle it makes
    /// that handle invalid and takes one from the live count.
    pub proof fn lemma_remove(self, h: HandleId)
        requires
            self.wf(),
        ensures
            self.remove(h).wf(),
            !self.remove(h).contains(h),
            self.contains(h) ==> self.remove(h).len() == self.len() - 1,
            !self.contains(h) ==> self.remove(h) == self,
    {
        self.lemma_free_bounded();
        let after = self.remove(h);
        if self.contains(h) {
            assert forall|k: int| 0 <= k < self.free.len() implies (#[trigger] self.free[k])
                != h.index by {
                assert(self.is_vacant(self.free[k] as int));
            }
            assert forall|k: int| 0 <= k < after.free.len() implies after.is_vacant(
                #[trigger] after.free[k] as int,
            ) by {
                if k > 0 {
                    assert(after.free[k] == self.free[k - 1]);
                    assert(self.is_vacant(self.free[k - 1] as int));
                }
            }
            assert forall|i: int| #[trigger] after.is_vacant(i) implies after.free.contains(
                i as u32,
            ) by {
                if i == h.index {
                    assert(after.free[0] == i as u32);
                } else {
                    assert(self.is_vacant(i));
                    let j = choose|j: int| 0 <= j < self.free.len() && self.free[j] == i as u32;
                    assert(after.free[j + 1] == i as u32);
                }
            }
        }
    }
}

} // verus!
