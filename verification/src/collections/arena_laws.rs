//! What holds of an arena over any run of allocations.

use crate::collections::arena_model::ArenaModel;
use vstd::prelude::*;

verus! {

impl<T> ArenaModel<T> {
    /// The arena after allocating each of `values`, first to last.
    pub open spec fn push_all(self, values: Seq<T>) -> Self
        decreases values.len(),
    {
        if values.len() == 0 {
            self
        } else {
            self.push_all(values.drop_last()).push(values.last())
        }
    }

    /// Allocations only append: after any run of them the arena is still
    /// well formed, holds that many more items, and every item that was
    /// there before stands in the same chunk at the same offset with the
    /// same value.
    pub proof fn lemma_items_stay(self, values: Seq<T>)
        requires
            self.wf(),
        ensures
            self.push_all(values).wf(),
            self.push_all(values).len() == self.len() + values.len(),
            forall|i: nat| i < self.len() ==> self.push_all(values).get(i) == self.get(i),
            forall|c: int, o: int|
                (#[trigger] self.item_at(c, o)) is Some ==> self.push_all(values).item_at(c, o)
                    == self.item_at(c, o),
        decreases values.len(),
    {
        if values.len() > 0 {
            self.lemma_items_stay(values.drop_last());
            let prev = self.push_all(values.drop_last());
            prev.lemma_push(values.last());
            assert forall|c: int, o: int| (#[trigger] self.item_at(c, o)) is Some implies self.push_all(
                values,
            ).item_at(c, o) == self.item_at(c, o) by {
                assert(prev.item_at(c, o) == self.item_at(c, o));
            }
        }
    }

    /// Chunk stability: an allocated item reads back as written after any
    /// number of later allocations.
    pub proof fn lemma_allocated_stays(self, value: T, later: Seq<T>)
        requires
            self.wf(),
        ensures
            self.push(value).push_all(later).get(self.len()) == Some(value),
    {
        self.lemma_push(value);
        self.push(value).lemma_items_stay(later);
    }

    /// A clear gives every item up: nothing reads back afterwards.
    pub proof fn lemma_clear_forgets(self, index: nat)
        ensures
            self.clear().wf(),
            self.clear().len() == 0,
            self.clear().get(index) is None,
    {
    }
}

} // verus!
