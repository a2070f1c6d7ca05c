//! A sparse set: values keyed by small integer indices, stored densely.

use crate::collections::sparse_model::SparseModel;
use vstd::prelude::*;

verus! {

/// The model entry that a stored position stands for.
spec fn position(p: Option<usize>) -> Option<int> {
    match p {
        Some(d) => Some(d as int),
        None => None,
    }
}

/// The model that the two backing arrays stand for.
spec fn model_of<T>(sparse: Seq<Option<usize>>, dense: Seq<(u32, T)>) -> SparseModel<T> {
    SparseModel { sparse: sparse.map_values(|p: Option<usize>| position(p)), dense }
}

/// Writing a value into a stored pair changes the model by `set`.
proof fn lemma_write_value<T>(
    sparse: Seq<Option<usize>>,
    dense: Seq<(u32, T)>,
    index: u32,
    pair: (u32, T),
)
    requires
        model_of(sparse, dense).wf(),
        model_of(sparse, dense).contains(index),
        pair.0 == index,
    ensures
        model_of(sparse, dense.update(sparse[index as int]->0 as int, pair)) == model_of(
            sparse,
            dense,
        ).set(index, pair.1),
        model_of(sparse, dense.update(sparse[index as int]->0 as int, pair)).wf(),
{
    model_of(sparse, dense).lemma_set(index, pair.1);
}

/// A set of values keyed by `u32` indices.
///
/// The values stand side by side in a dense array, so walking them touches
/// no holes; a sparse array maps each index to its value's position. Removal
/// moves the last value into the freed position, so the order of the values
/// changes with removals.
pub struct SparseSet<T> {
    sparse: Vec<Option<usize>>,
    dense: Vec<(u32, T)>,
}

impl<T> View for SparseSet<T> {
    type V = SparseModel<T>;

    closed spec fn view(&self) -> SparseModel<T> {
        model_of(self.sparse@, self.dense@)
    }
}

impl<T> SparseSet<T> {
    /// The set is well formed: its sparse and dense arrays name each other.
    /// Every operation keeps this.
    pub open spec fn wf(&self) -> bool {
        self@.wf()
    }

    /// Creates an empty set.
    pub fn new() -> (s: Self)
        ensures
            s@ == SparseModel::<T>::empty(),
            s.wf(),
    {
        let s = SparseSet { sparse: Vec::new(), dense: Vec::new() };
        assert(s@.sparse =~= Seq::empty());
        s
    }

    /// Stores `value` at `index`, replacing the value already there if any.
    pub fn insert(&mut self, index: u32, value: T)
        requires
            old(self).wf(),
            index < usize::MAX,
        ensures
            final(self).wf(),
            final(self)@ == old(self)@.insert(index, value),
            final(self)@.get(index) == Some(value),
            forall|j: u32| j != index ==> final(self)@.get(j) == old(self)@.get(j),
    {
        let ghost before = self@;
        proof {
            before.lemma_insert(index, value);
        }
        let idx = index as usize;
        if idx >= self.sparse.len() {
            self.sparse.resize(idx + 1, None);
        }
        assert(self.sparse@.map_values(|p: Option<usize>| position(p)) =~= before.grown(index));
        match self.sparse[idx] {
            Some(dense_idx) => {
                assert(before.sparse[index as int] == Some(dense_idx as int));
                self.dense[dense_idx] = (index, value);
            },
            None => {
                self.sparse[idx] = Some(self.dense.len());
                self.dense.push((index, value));
            },
        }
        assert(self@.sparse =~= before.insert(index, value).sparse);
    }

    /// Removes and returns the value at `index`, if there is one.
    ///
    /// The last stored pair moves into the freed position.
    pub fn remove(&mut self, index: u32) -> (r: Option<T>)
        requires
            old(self).wf(),
        ensures
            final(self).wf(),
            r == old(self)@.get(index),
            final(self)@ == old(self)@.remove(index),
            !final(self)@.contains(index),
            forall|j: u32| j != index ==> final(self)@.get(j) == old(self)@.get(j),
    {
        let ghost before = self@;
        proof {
            before.lemma_remove(index);
        }
        let idx = index as usize;
        if idx >= self.sparse.len() {
            return None;
        }
        match self.sparse[idx] {
            Some(dense_idx) => {
                assert(before.sparse[index as int] == Some(dense_idx as int));
                self.sparse[idx] = None;
                let removed = self.dense.swap_remove(dense_idx);
                if dense_idx < self.dense.len() {
                    let moved = self.dense[dense_idx].0 as usize;
                    assert(before.sparse[before.dense[before.dense.len() - 1].0 as int] == Some(
                        before.dense.len() - 1,
                    ));
                    self.sparse[moved] = Some(dense_idx);
                }
                assert(self@.sparse =~= before.remove(index).sparse);
                Some(removed.1)
            },
            None => {
                assert(before.sparse[index as int] is None);
                None
            },
        }
    }

    /// The value at `index`, if there is one.
    pub fn get(&self, index: u32) -> (r: Option<&T>)
        requires
            self.wf(),
        ensures
            r == match self@.get(index) {
                Some(v) => Some(&v),
                None => None,
            },
    {
        let idx = index as usize;
        if idx >= self.sparse.len() {
            return None;
        }
        match self.sparse[idx] {
            Some(dense_idx) => {
                assert(self@.sparse[index as int] == Some(dense_idx as int));
                Some(&self.dense[dense_idx].1)
            },
            None => {
                assert(self@.sparse[index as int] is None);
                None
            },
        }
    }

    /// Mutable access to the value at `index`, if there is one.
    ///
    /// Whatever is written through the returned reference replaces the value;
    /// nothing else in the set changes.
    pub fn get_mut(&mut self, index: u32) -> (r: Option<&mut T>)
        requires
            old(self).wf(),
        ensures
            final(self).wf(),
            match r {
                Some(v) => old(self)@.get(index) == Some(*v) && final(self)@ == old(self)@.set(
                    index,
                    *final(v),
                ),
                None => old(self)@.get(index) is None && final(self)@ == old(self)@,
            },
    {
        let idx = index as usize;
        if idx >= self.sparse.len() {
            return None;
        }
        let ghost sparse = self.sparse@;
        let ghost dense = self.dense@;
        match self.sparse[idx] {
            Some(dense_idx) => {
                proof {
                    assert(self@.sparse[index as int] == Some(dense_idx as int));
                    assert(dense[dense_idx as int].0 == index);
                    assert forall|pair: (u32, T)| pair.0 == index implies {
                        &&& model_of(sparse, #[trigger] dense.update(dense_idx as int, pair))
                            == model_of(sparse, dense).set(index, pair.1)
                        &&& model_of(sparse, dense.update(dense_idx as int, pair)).wf()
                    } by {
                        lemma_write_value(sparse, dense, index, pair);
                    }
                }
                Some(&mut self.dense[dense_idx].1)
            },
            None => {
                assert(self@.sparse[index as int] is None);
                None
            },
        }
    }

    /// The stored pairs, each as its index and a reference to its value, in
    /// the order the dense array holds them.
    ///
    /// The order is not the order of insertion: a removal moves the last pair
    /// into the freed position.
    pub fn iter(&self) -> (pairs: Vec<(u32, &T)>)
        ensures
            pairs@.len() == self@.dense.len(),
            forall|d: int|
                0 <= d < pairs@.len() ==> (#[trigger] pairs@[d]).0 == self@.dense[d].0
                    && *pairs@[d].1 == self@.dense[d].1,
    {
        let mut pairs: Vec<(u32, &T)> = Vec::with_capacity(self.dense.len());
        let mut d: usize = 0;
        while d < self.dense.len()
            invariant
                d <= self.dense.len(),
                pairs@.len() == d,
                forall|e: int|
                    0 <= e < d ==> (#[trigger] pairs@[e]).0 == self.dense@[e].0 && *pairs@[e].1
                        == self.dense@[e].1,
            decreases self.dense.len() - d,
        {
            pairs.push((self.dense[d].0, &self.dense[d].1));
            d += 1;
        }
        pairs
    }

    /// Whether a value is stored at `index`.
    pub fn contains(&self, index: u32) -> (b: bool)
        ensures
            b == self@.contains(index),
    {
        let idx = index as usize;
        if idx < self.sparse.len() {
            assert(self@.sparse[index as int] == position(self.sparse@[index as int]));
            self.sparse[idx].is_some()
        } else {
            false
        }
    }

    /// The number of stored values.
    pub fn len(&self) -> (n: usize)
        ensures
            n == self@.len(),
    {
        self.dense.len()
    }

    /// Whether nothing is stored.
    pub fn is_empty(&self) -> (b: bool)
        ensures
            b == (self@.len() == 0),
    {
        self.dense.len() == 0
    }
}

impl<T> Default for SparseSet<T> {
    fn default() -> (s: Self)
        ensures
            s@ == SparseModel::<T>::empty(),
            s.wf(),
    {
        SparseSet::new()
    }
}

} // verus!
