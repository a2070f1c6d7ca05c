//! What holds of a sparse set over whole histories of insertions and
//! removals.

use crate::collections::sparse_model::SparseModel;
use vstd::prelude::*;

verus! {

/// One operation on a sparse set.
pub enum SparseOp<T> {
    /// Store a value at an index.
    Insert(u32, T),
    /// Remove the value at an index, if there is one.
    Remove(u32),
}

impl<T> SparseModel<T> {
    /// The set after one operation.
    pub open spec fn step(self, op: SparseOp<T>) -> Self {
        match op {
            SparseOp::Insert(index, value) => self.insert(index, value),
            SparseOp::Remove(index) => self.remove(index),
        }
    }

    /// The set after a history of operations, oldest first.
    pub open spec fn run(self, ops: Seq<SparseOp<T>>) -> Self
        decreases ops.len(),
    {
        if ops.len() == 0 {
            self
        } else {
            self.run(ops.drop_last()).step(ops.last())
        }
    }

    /// The bijection between sparse entries and dense positions survives
    /// every history: each dense pair is found where its index's sparse
    /// entry points.
    pub proof fn lemma_bijection(self, ops: Seq<SparseOp<T>>)
        requires
            self.wf(),
        ensures
            self.run(ops).wf(),
            forall|d: int|
                0 <= d < self.run(ops).dense.len() ==> self.run(ops).sparse[(
                #[trigger] self.run(ops).dense[d]).0 as int] == Some(d),
        decreases ops.len(),
    {
        if ops.len() > 0 {
            self.lemma_bijection(ops.drop_last());
            let prev = self.run(ops.drop_last());
            match ops.last() {
                SparseOp::Insert(index, value) => {
                    prev.lemma_insert(index, value);
                },
                SparseOp::Remove(index) => {
                    prev.lemma_remove(index);
                },
            }
        }
    }

    /// Started empty, a set is in bijection after any history.
    pub proof fn lemma_bijection_from_empty(ops: Seq<SparseOp<T>>)
        ensures
            Self::empty().run(ops).wf(),
            forall|d: int|
                0 <= d < Self::empty().run(ops).dense.len() ==> Self::empty().run(ops).sparse[(
                #[trigger] Self::empty().run(ops).dense[d]).0 as int] == Some(d),
    {
        Self::empty().lemma_bijection(ops);
    }

    /// In a well-formed set no index is stored twice: the pairs at two
    /// different dense positions carry different indices.
    pub proof fn lemma_indices_distinct(self, d1: int, d2: int)
        requires
            self.wf(),
            0 <= d1 < self.dense.len(),
            0 <= d2 < self.dense.len(),
            d1 != d2,
        ensures
            self.dense[d1].0 != self.dense[d2].0,
    {
        assert(self.sparse[self.dense[d1].0 as int] == Some(d1));
        assert(self.sparse[self.dense[d2].0 as int] == Some(d2));
    }

    /// In a well-formed set an index is stored iff some dense pair carries
    /// it, and then `get` reads that pair's value.
    pub proof fn lemma_contains_iff_listed(self, index: u32)
        requires
            self.wf(),
        ensures
            self.contains(index) <==> exists|d: int|
                0 <= d < self.dense.len() && (#[trigger] self.dense[d]).0 == index,
            forall|d: int|
                0 <= d < self.dense.len() && (#[trigger] self.dense[d]).0 == index ==> self.get(
                    index,
                ) == Some(self.dense[d].1),
    {
        if self.contains(index) {
            let d = self.sparse[index as int]->0;
            assert(self.sparse[index as int] == Some(d));
            assert(self.dense[d].0 == index);
        }
        assert forall|d: int|
            0 <= d < self.dense.len() && (#[trigger] self.dense[d]).0 == index implies self.get(
            index,
        ) == Some(self.dense[d].1) && self.contains(index) by {
            assert(self.sparse[self.dense[d].0 as int] == Some(d));
        }
    }
}

} // verus!
