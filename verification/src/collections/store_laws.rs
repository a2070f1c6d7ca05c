//! What holds of a generational store over whole histories of insertions
//! and removals.

use crate::collections::store_model::{next_generation, StoreModel};
use crate::handle::{invalid_index, HandleId};
use vstd::prelude::*;
use vstd::relations::injective;
use vstd::set_lib::{lemma_int_range, lemma_len_subset, lemma_set_disjoint_lens, set_int_range};

verus! {

/// One operation on a store.
pub enum StoreOp<T> {
    /// Insert a value.
    Insert(T),
    /// Remove through a handle, valid or not.
    Remove(HandleId),
}

/// A generation advanced `k` times.
pub open spec fn advanced(g: u32, k: nat) -> u32 {
    ((g + k) % 0x1_0000_0000) as u32
}

/// The number of insertions in a history.
pub open spec fn insertions<T>(ops: Seq<StoreOp<T>>) -> nat
    decreases ops.len(),
{
    if ops.len() == 0 {
        0
    } else {
        insertions(ops.drop_last()) + if ops.last() is Insert {
            1nat
        } else {
            0nat
        }
    }
}

impl<T> StoreModel<T> {
    /// The store after one operation.
    pub open spec fn step(self, op: StoreOp<T>) -> Self {
        match op {
            StoreOp::Insert(value) => self.insert(value),
            StoreOp::Remove(h) => self.remove(h),
        }
    }

    /// The store after a history of operations, oldest first.
    pub open spec fn run(self, ops: Seq<StoreOp<T>>) -> Self
        decreases ops.len(),
    {
        if ops.len() == 0 {
            self
        } else {
            self.run(ops.drop_last()).step(ops.last())
        }
    }

    /// Every insertion of the history finds room when its turn comes.
    pub open spec fn admits(self, ops: Seq<StoreOp<T>>) -> bool
        decreases ops.len(),
    {
        ops.len() == 0 || {
            &&& self.admits(ops.drop_last())
            &&& ops.last() is Insert ==> self.run(ops.drop_last()).has_room()
        }
    }

    /// Whether `op`, applied to this store, removes a value.
    pub open spec fn removes(self, op: StoreOp<T>) -> bool {
        op matches StoreOp::Remove(h) && self.contains(h)
    }

    /// The number of removals in a history that found a valid handle.
    pub open spec fn removals(self, ops: Seq<StoreOp<T>>) -> nat
        decreases ops.len(),
    {
        if ops.len() == 0 {
            0
        } else {
            self.removals(ops.drop_last()) + if self.run(ops.drop_last()).removes(ops.last()) {
                1nat
            } else {
                0nat
            }
        }
    }

    /// The number of removals in a history that vacated slot `index`.
    pub open spec fn removals_at(self, ops: Seq<StoreOp<T>>, index: u32) -> nat
        decreases ops.len(),
    {
        if ops.len() == 0 {
            0
        } else {
            self.removals_at(ops.drop_last(), index) + if self.run(ops.drop_last()).removes(
                ops.last(),
            ) && ops.last()->Remove_0.index == index {
                1nat
            } else {
                0nat
            }
        }
    }

    /// The indices of the occupied slots.
    pub open spec fn occupied(self) -> Set<int> {
        Set::new(|i: int| 0 <= i < self.slots.len() && self.slots[i] is Occupied)
    }

    /// The live count of a well-formed store is the number of its occupied
    /// slots.
    pub proof fn lemma_len_counts_occupied(self)
        requires
            self.wf(),
        ensures
            self.occupied().finite(),
            self.occupied().len() == self.len(),
    {
        let n = self.slots.len() as int;
        let f = |x: u32| x as int;
        assert(injective(f));
        self.free.lemma_no_duplicates_injective(f);
        let ints = self.free.map_values(f);
        ints.unique_seq_to_set();
        let vacant = ints.to_set();
        let occupied = self.occupied();
        lemma_int_range(0, n);
        let range = set_int_range(0, n);
        assert forall|i: int| range.contains(i) <==> occupied.contains(i) || vacant.contains(
            i,
        ) by {
            if vacant.contains(i) {
                let k = choose|k: int| 0 <= k < ints.len() && ints[k] == i;
                assert(self.is_vacant(self.free[k] as int));
            }
            if range.contains(i) && !occupied.contains(i) {
                assert(self.is_vacant(i));
                let k = choose|k: int| 0 <= k < self.free.len() && self.free[k] == i as u32;
                assert(ints[k] == i);
            }
        }
        assert(occupied + vacant =~= range);
        assert(occupied.disjoint(vacant)) by {
            assert forall|i: int| occupied.contains(i) implies !vacant.contains(i) by {
                if vacant.contains(i) {
                    let k = choose|k: int| 0 <= k < ints.len() && ints[k] == i;
                    assert(self.is_vacant(self.free[k] as int));
                }
            }
        }
        lemma_len_subset(occupied, range);
        lemma_set_disjoint_lens(occupied, vacant);
        self.lemma_free_bounded();
    }

    /// The reserved index never names a slot: no handle that carries it is
    /// valid.
    pub proof fn lemma_reserved_index_invalid(self, h: HandleId)
        requires
            self.wf(),
            h.index == invalid_index(),
        ensures
            !self.contains(h),
            self.get(h) is None,
    {
    }

    /// Round trip: the handle that an insertion returns reads back the
    /// inserted value.
    pub proof fn lemma_round_trip(self, value: T)
        requires
            self.wf(),
            self.has_room(),
        ensures
            self.insert(value).get(self.next_handle()) == Some(value),
    {
        self.lemma_insert(value);
    }

    /// Stale invalidation: once a removal through a handle has succeeded,
    /// the handle reads nothing and is not contained.
    pub proof fn lemma_removed_is_stale(self, h: HandleId)
        requires
            self.wf(),
            self.contains(h),
        ensures
            self.remove(h).get(h) is None,
            !self.remove(h).contains(h),
    {
        self.lemma_remove(h);
    }

    /// Any history that finds room for its insertions keeps a store well
    /// formed, never shrinks the slot array, and leaves the live count at
    /// what it was, plus the insertions, minus the removals that found a
    /// valid handle.
    pub proof fn lemma_count(self, ops: Seq<StoreOp<T>>)
        requires
            self.wf(),
            self.admits(ops),
        ensures
            self.run(ops).wf(),
            self.run(ops).slots.len() >= self.slots.len(),
            self.run(ops).len() == self.len() + insertions(ops) - self.removals(ops),
        decreases ops.len(),
    {
        if ops.len() > 0 {
            self.lemma_count(ops.drop_last());
            let prev = self.run(ops.drop_last());
            match ops.last() {
                StoreOp::Insert(value) => {
                    prev.lemma_insert(value);
                },
                StoreOp::Remove(h) => {
                    prev.lemma_remove(h);
                },
            }
        }
    }

    /// Started empty, a store's live count is the number of insertions minus
    /// the number of removals that found a valid handle.
    pub proof fn lemma_count_from_empty(ops: Seq<StoreOp<T>>)
        requires
            Self::empty().admits(ops),
        ensures
            Self::empty().run(ops).len() == insertions(ops) - Self::empty().removals(ops),
    {
        Self::empty().lemma_count(ops);
    }

    /// A slot's stored generation changes only when the slot is vacated, and
    /// then by one step: after a history it has advanced once for each
    /// removal that vacated the slot.
    pub proof fn lemma_generation_advances(self, ops: Seq<StoreOp<T>>, index: u32)
        requires
            self.wf(),
            self.admits(ops),
            index < self.slots.len(),
        ensures
            index < self.run(ops).slots.len(),
            self.run(ops).slots[index as int].generation() == advanced(
                self.slots[index as int].generation(),
                self.removals_at(ops, index),
            ),
        decreases ops.len(),
    {
        if ops.len() > 0 {
            self.lemma_generation_advances(ops.drop_last(), index);
            self.lemma_count(ops.drop_last());
            let prev = self.run(ops.drop_last());
            let g = self.slots[index as int].generation();
            let k = self.removals_at(ops.drop_last(), index);
            match ops.last() {
                StoreOp::Insert(value) => {
                    prev.lemma_insert(value);
                },
                StoreOp::Remove(h) => {
                    prev.lemma_remove(h);
                    if prev.contains(h) && h.index == index {
                        assert(next_generation(advanced(g, k)) == advanced(g, k + 1)) by {
                            lemma_advance_step(g, k);
                        }
                    }
                },
            }
        } else {
            assert(advanced(self.slots[index as int].generation(), 0) == self.slots[index as int].generation());
        }
    }

    /// Slot reuse with distinct identity, at the next insertion: after a
    /// removal through `h1`, the next insertion reuses `h1`'s slot under the
    /// next generation; `h1` reads nothing and the new handle reads the new
    /// value.
    pub proof fn lemma_reuse_next(self, h1: HandleId, value: T)
        requires
            self.wf(),
            self.contains(h1),
        ensures
            self.remove(h1).has_room(),
            self.remove(h1).next_handle().index == h1.index,
            self.remove(h1).next_handle().generation == next_generation(h1.generation),
            self.remove(h1).next_handle().generation != h1.generation,
            self.remove(h1).insert(value).get(h1) is None,
            self.remove(h1).insert(value).get(self.remove(h1).next_handle()) == Some(value),
    {
        self.lemma_remove(h1);
        self.remove(h1).lemma_insert(value);
    }

    /// Slot reuse with distinct identity, at any later insertion: after a
    /// removal through `h1` and any further history, an insertion that reuses
    /// `h1`'s slot returns a handle with `h1`'s index and another generation,
    /// `h1` reads nothing and the new handle reads the new value.
    ///
    /// The slot's generation is a 32-bit counter that wraps. The law is stated
    /// for histories in which the slot has not been vacated a multiple of
    /// 2^32 times since `h1` was issued; at such a multiple the counter is
    /// back at `h1`'s generation.
    pub proof fn lemma_reuse_distinct(self, h1: HandleId, ops: Seq<StoreOp<T>>, value: T)
        requires
            self.wf(),
            self.contains(h1),
            self.remove(h1).admits(ops),
            self.remove(h1).run(ops).has_room(),
            self.remove(h1).run(ops).next_handle().index == h1.index,
            (1 + self.remove(h1).removals_at(ops, h1.index)) % 0x1_0000_0000 != 0,
        ensures
            self.remove(h1).run(ops).next_handle().generation != h1.generation,
            self.remove(h1).run(ops).insert(value).get(h1) is None,
            self.remove(h1).run(ops).insert(value).get(self.remove(h1).run(ops).next_handle())
                == Some(value),
    {
        let start = self.remove(h1);
        self.lemma_remove(h1);
        start.lemma_count(ops);
        start.lemma_generation_advances(ops, h1.index);
        let s = start.run(ops);
        s.lemma_insert(value);
        s.lemma_free_bounded();
        let k = start.removals_at(ops, h1.index);
        assert(start.slots[h1.index as int].generation() == next_generation(h1.generation));
        assert(advanced(next_generation(h1.generation), k) != h1.generation) by {
            lemma_advance_distinct(h1.generation, k);
        }
        if s.free.len() > 0 {
            assert(s.is_vacant(s.free[0] as int));
        }
    }
}

/// Advancing once more is taking the next generation.
proof fn lemma_advance_step(g: u32, k: nat)
    ensures
        next_generation(advanced(g, k)) == advanced(g, k + 1),
{
    let m = 0x1_0000_0000int;
    let a = (g + k) % m;
    assert(0 <= a < m && (g + k + 1) % m == (if a == m - 1 {
        0
    } else {
        a + 1
    })) by (nonlinear_arith)
        requires
            a == (g + k) % m,
            m == 0x1_0000_0000int,
            g + k >= 0,
    ;
}

/// A generation advanced `1 + k` times differs from where it started unless
/// `1 + k` is a multiple of 2^32.
proof fn lemma_advance_distinct(g: u32, k: nat)
    requires
        (1 + k) % 0x1_0000_0000 != 0,
    ensures
        advanced(next_generation(g), k) != g,
{
    let m = 0x1_0000_0000int;
    let n = next_generation(g) as int;
    assert(n == (g + 1) % m) by (nonlinear_arith)
        requires
            n == (if g == m - 1 {
                0
            } else {
                g + 1
            }),
            0 <= g < m,
            m == 0x1_0000_0000int,
    ;
    let j = k as int;
    assert((n + j) % m != g) by (nonlinear_arith)
        requires
            n == (g + 1) % m,
            (1 + j) % m != 0,
            0 <= g < m,
            j >= 0,
            m == 0x1_0000_0000int,
    ;
}

} // verus!
