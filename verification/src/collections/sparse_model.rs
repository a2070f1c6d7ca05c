//! The mathematical model of a sparse set: a sparse array of positions and a
//! dense array of `(index, value)` pairs.

use vstd::prelude::*;

verus! {

/// A sparse set as a mathematical value.
pub struct SparseModel<T> {
    /// For each external index grown into so far, where its pair stands in
    /// `dense`, if it has one.
    pub sparse: Seq<Option<int>>,
    /// The stored pairs, without holes, in iteration order.
    pub dense: Seq<(u32, T)>,
}

impl<T> SparseModel<T> {
    /// The set with nothing stored and nothing grown.
    pub open spec fn empty() -> Self {
        SparseModel { sparse: Seq::empty(), dense: Seq::empty() }
    }

    /// The two arrays name each other: every dense pair is where its index's
    /// sparse entry says, and every sparse entry points at a pair that carries
    /// its index.
    pub open spec fn wf(self) -> bool {
        &&& forall|d: int|
            0 <= d < self.dense.len() ==> {
                &&& (#[trigger] self.dense[d]).0 < self.sparse.len()
                &&& self.sparse[self.dense[d].0 as int] == Some(d)
            }
        &&& forall|i: int|
            0 <= i < self.sparse.len() ==> match #[trigger] self.sparse[i] {
                Some(d) => 0 <= d < self.dense.len() && self.dense[d].0 == i,
                None => true,
            }
    }

    /// Whether a value is stored at `index`.
    pub open spec fn contains(self, index: u32) -> bool {
        index < self.sparse.len() && self.sparse[index as int] is Some
    }

    /// The value stored at `index`, if there is one.
    pub open spec fn get(self, index: u32) -> Option<T> {
        if self.contains(index) {
            Some(self.dense[self.sparse[index as int]->0].1)
        } else {
            None
        }
    }

    /// The number of stored values.
    pub open spec fn len(self) -> nat {
        self.dense.len()
    }

    /// The sparse array grown, with absent entries, until it has an entry
    /// for `index`.
    pub open spec fn grown(self, index: u32) -> Seq<Option<int>> {
        if index < self.sparse.len() {
            self.sparse
        } else {
            self.sparse + Seq::new((index + 1 - self.sparse.len()) as nat, |i: int| None::<int>)
        }
    }

    /// The set after storing `value` at `index`: an existing pair is
    /// overwritten in place, a new one is appended.
    pub open spec fn insert(self, index: u32, value: T) -> Self {
        let sparse = self.grown(index);
        match sparse[index as int] {
            Some(d) => SparseModel { sparse, dense: self.dense.update(d, (index, value)) },
            None => SparseModel {
                sparse: sparse.update(index as int, Some(self.dense.len() as int)),
                dense: self.dense.push((index, value)),
            },
        }
    }

    /// The set after removing the value at `index`: unchanged if there is
    /// none; otherwise the last pair moves into the freed position.
    pub open spec fn remove(self, index: u32) -> Self {
        if self.contains(index) {
            let d = self.sparse[index as int]->0;
            let last = self.dense.len() - 1;
            let cleared = self.sparse.update(index as int, None);
            SparseModel {
                sparse: if d < last {
                    cleared.update(self.dense[last].0 as int, Some(d))
                } else {
                    cleared
                },
                dense: self.dense.update(d, self.dense[last]).drop_last(),
            }
        } else {
            self
        }
    }

    /// The set with the value at the stored `index` replaced.
    pub open spec fn set(self, index: u32, value: T) -> Self {
        SparseModel {
            sparse: self.sparse,
            dense: self.dense.update(self.sparse[index as int]->0, (index, value)),
        }
    }

    /// Storing a value keeps the set well formed, makes the value readable at
    /// its index, and changes nothing at any other index. The count grows by
    /// one exactly when the index was not stored before.
    pub proof fn lemma_insert(self, index: u32, value: T)
        requires
            self.wf(),
        ensures
            self.insert(index, value).wf(),
            self.insert(index, value).get(index) == Some(value),
            forall|j: u32| j != index ==> self.insert(index, value).get(j) == self.get(j),
            self.insert(index, value).len() == if self.contains(index) {
                self.len()
            } else {
                self.len() + 1
            },
    {
        let after = self.insert(index, value);
        let sparse = self.grown(index);
        assert forall|i: int| 0 <= i < sparse.len() implies sparse[i] == if i
            < self.sparse.len() {
            self.sparse[i]
        } else {
            None
        } by {}
        assert forall|d: int| 0 <= d < after.dense.len() implies {
            &&& (#[trigger] after.dense[d]).0 < after.sparse.len()
            &&& after.sparse[after.dense[d].0 as int] == Some(d)
        } by {
            if d < self.dense.len() {
                assert(self.sparse[self.dense[d].0 as int] == Some(d));
            }
        }
        assert forall|i: int| 0 <= i < after.sparse.len() implies match #[trigger] after.sparse[i] {
            Some(d) => 0 <= d < after.dense.len() && after.dense[d].0 == i,
            None => true,
        } by {
            if i < self.sparse.len() {
                assert(sparse[i] == self.sparse[i]);
            }
        }
        assert forall|j: u32| j != index implies after.get(j) == self.get(j) by {
            if j < self.sparse.len() {
                assert(sparse[j as int] == self.sparse[j as int]);
            }
        }
    }

    /// Removing keeps the set well formed, leaves nothing at the index, and
    /// changes nothing at any other index. The count shrinks by one exactly
    /// when the index was stored.
    pub proof fn lemma_remove(self, index: u32)
        requires
            self.wf(),
        ensures
            self.remove(index).wf(),
            !self.remove(index).contains(index),
            forall|j: u32| j != index ==> self.remove(index).get(j) == self.get(j),
            self.remove(index).len() == if self.contains(index) {
                self.len() - 1
            } else {
                self.len() as int
            },
    {
        let after = self.remove(index);
        if self.contains(index) {
            let d = self.sparse[index as int]->0;
            let last = self.dense.len() - 1;
            assert(self.sparse[index as int] == Some(d));
            assert(self.dense[d].0 == index);
            assert(self.sparse[self.dense[last].0 as int] == Some(last));
            assert forall|e: int| 0 <= e < after.dense.len() implies {
                &&& (#[trigger] after.dense[e]).0 < after.sparse.len()
                &&& after.sparse[after.dense[e].0 as int] == Some(e)
            } by {
                assert(self.sparse[self.dense[e].0 as int] == Some(e));
            }
            assert forall|i: int| 0 <= i < after.sparse.len() implies match #[trigger] after.sparse[i] {
                Some(e) => 0 <= e < after.dense.len() && after.dense[e].0 == i,
                None => true,
            } by {
                let _ = self.sparse[i];
            }
            assert forall|j: u32| j != index implies after.get(j) == self.get(j) by {
                if j < self.sparse.len() {
                    let _ = self.sparse[j as int];
                }
            }
        }
    }

    /// Replacing a stored value keeps the set well formed and changes nothing
    /// but the value at that index.
    pub proof fn lemma_set(self, index: u32, value: T)
        requires
            self.wf(),
            self.contains(index),
        ensures
            self.set(index, value).wf(),
            self.set(index, value).get(index) == Some(value),
            forall|j: u32| j != index ==> self.set(index, value).get(j) == self.get(j),
            self.set(index, value).len() == self.len(),
            self.set(index, value) == self.insert(index, value),
    {
        let after = self.set(index, value);
        let d = self.sparse[index as int]->0;
        assert(self.sparse[index as int] == Some(d));
        assert forall|e: int| 0 <= e < after.dense.len() implies {
            &&& (#[trigger] after.dense[e]).0 < after.sparse.len()
            &&& after.sparse[after.dense[e].0 as int] == Some(e)
        } by {
            assert(self.sparse[self.dense[e].0 as int] == Some(e));
        }
        assert forall|i: int| 0 <= i < after.sparse.len() implies match #[trigger] after.sparse[i] {
            Some(e) => 0 <= e < after.dense.len() && after.dense[e].0 == i,
            None => true,
        } by {
            let _ = self.sparse[i];
        }
        assert forall|j: u32| j != index implies after.get(j) == self.get(j) by {
            if j < self.sparse.len() {
                let _ = self.sparse[j as int];
            }
        }
    }
}

} // verus!
