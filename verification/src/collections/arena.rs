//! A chunked arena for items that live and die together.

use crate::collections::arena_model::{count, lemma_count_prefix, ArenaModel};
use vstd::prelude::*;

verus! {

/// The chunks of a backing array, as sequences.
spec fn chunk_views<T>(chunks: Seq<Vec<T>>) -> Seq<Seq<T>> {
    chunks.map_values(|c: Vec<T>| c@)
}

/// An append-only allocator that keeps its items in fixed-capacity chunks.
///
/// Items are never moved or removed one by one: a chunk, once started, stays
/// where it is while later chunks are appended, and only [`Arena::clear`]
/// gives the items up, all at once.
///
/// The reference that [`Arena::allocate`] returns borrows the arena, so it cannot
/// outlive a later `allocate` or `clear`; to read an item afterwards, name it by
/// its allocation order with [`Arena::get`].
pub struct Arena<T> {
    chunks: Vec<Vec<T>>,
    chunk_size: usize,
}

impl<T> View for Arena<T> {
    type V = ArenaModel<T>;

    closed spec fn view(&self) -> ArenaModel<T> {
        ArenaModel { chunks: chunk_views(self.chunks@), chunk_size: self.chunk_size as nat }
    }
}

impl<T> Arena<T> {
    /// The arena is well formed: its model is, and the item count fits a
    /// `usize`. Every operation keeps this.
    pub open spec fn wf(&self) -> bool {
        &&& self@.wf()
        &&& self@.len() <= usize::MAX
    }

    /// Creates an empty arena with chunks of 1024 items.
    pub fn new() -> (a: Self)
        ensures
            a@ == ArenaModel::<T>::empty(1024),
            a.wf(),
    {
        Arena::with_chunk_size(1024)
    }

    /// Creates an empty arena with chunks of `chunk_size` items.
    pub fn with_chunk_size(chunk_size: usize) -> (a: Self)
        ensures
            a@ == ArenaModel::<T>::empty(chunk_size as nat),
            a.wf(),
    {
        let a = Arena { chunks: Vec::new(), chunk_size };
        assert(a@.chunks =~= Seq::empty());
        a
    }

    /// Whether the next allocation starts a new chunk.
    fn needs_new_chunk(&self) -> (b: bool)
        ensures
            b == self@.needs_new_chunk(),
    {
        let n = self.chunks.len();
        n == 0 || self.chunks[n - 1].len() >= self.chunk_size
    }

    /// Allocates `value` and returns a mutable reference to it.
    ///
    /// The value goes to the end of the last chunk; when that chunk has
    /// reached the configured capacity (or there is none yet), a new chunk is
    /// started first. What is written through the returned reference is what
    /// the arena holds as its latest item; no earlier item is touched.
    pub fn allocate(&mut self, value: T) -> (r: &mut T)
        requires
            old(self).wf(),
            old(self)@.len() < usize::MAX,
        ensures
            *r == value,
            final(self)@ == old(self)@.push(*final(r)),
            final(self).wf(),
            final(self)@.len() == old(self)@.len() + 1,
            forall|i: nat| i < old(self)@.len() ==> final(self)@.get(i) == old(self)@.get(i),
            forall|c: int, o: int|
                (#[trigger] old(self)@.item_at(c, o)) is Some ==> final(self)@.item_at(c, o) == old(
                    self,
                )@.item_at(c, o),
    {
        let ghost before = self@;
        if self.needs_new_chunk() {
            self.chunks.push(Vec::with_capacity(self.chunk_size));
        }
        let last = self.chunks.len() - 1;
        self.chunks[last].push(value);
        let at = self.chunks[last].len() - 1;
        let ghost chunks = self.chunks@;
        let ghost size = self.chunk_size as nat;
        proof {
            assert(chunks[last as int]@ =~= if before.needs_new_chunk() {
                seq![value]
            } else {
                before.chunks.last().push(value)
            });
            assert forall|c: Vec<T>|
                c@ =~= chunks[last as int]@.update(at as int, c@[at as int]) implies {
                let after = ArenaModel {
                    chunks: chunk_views(#[trigger] chunks.update(last as int, c)),
                    chunk_size: size,
                };
                &&& after == before.push(c@[at as int])
                &&& after.wf()
                &&& after.len() == before.len() + 1
                &&& forall|i: nat| i < before.len() ==> after.get(i) == before.get(i)
                &&& forall|c: int, o: int|
                    (#[trigger] before.item_at(c, o)) is Some ==> after.item_at(c, o)
                        == before.item_at(c, o)
            } by {
                let v = c@[at as int];
                if before.needs_new_chunk() {
                    assert(c@ =~= seq![v]);
                } else {
                    assert(c@ =~= before.chunks.last().push(v));
                }
                assert(chunk_views(chunks.update(last as int, c)) =~= before.push(v).chunks);
                before.lemma_push(v);
            }
        }
        &mut self.chunks[last][at]
    }

    /// The item allocated `index`-th (from zero) since the last clear, if
    /// that many were allocated.
    pub fn get(&self, index: usize) -> (r: Option<&T>)
        requires
            self.wf(),
        ensures
            r == match self@.get(index as nat) {
                Some(v) => Some(&v),
                None => None,
            },
    {
        let capacity = if self.chunk_size == 0 {
            1
        } else {
            self.chunk_size
        };
        let c = index / capacity;
        let o = index % capacity;
        proof {
            assert(index == c * capacity + o && 0 <= o < capacity) by (nonlinear_arith)
                requires
                    c == index / capacity,
                    o == index % capacity,
                    capacity > 0,
            ;
            if (index as nat) < self@.len() {
                self@.lemma_locate(index as nat);
                assert(self@.chunks[c as int] == self.chunks@[c as int]@);
            } else if c < self.chunks.len() && o < self.chunks@[c as int]@.len() {
                assert(self@.chunks[c as int] == self.chunks@[c as int]@);
                self@.lemma_located(c as int, o as int);
            }
        }
        if c < self.chunks.len() && o < self.chunks[c].len() {
            Some(&self.chunks[c][o])
        } else {
            None
        }
    }

    /// Drops every chunk. The configured chunk capacity stays.
    pub fn clear(&mut self)
        ensures
            final(self)@ == old(self)@.clear(),
            final(self).wf(),
    {
        self.chunks.clear();
        assert(self@.chunks =~= Seq::empty());
    }

    /// The number of allocated items.
    pub fn len(&self) -> (n: usize)
        requires
            self.wf(),
        ensures
            n == self@.len(),
    {
        let mut total: usize = 0;
        let mut c: usize = 0;
        while c < self.chunks.len()
            invariant
                c <= self.chunks.len(),
                total == count(self@.chunks.take(c as int)),
                self@.chunks.len() == self.chunks.len(),
                self@.len() <= usize::MAX,
            decreases self.chunks.len() - c,
        {
            proof {
                lemma_count_prefix(self@.chunks, c as int);
                lemma_count_prefix(self@.chunks, c as int + 1);
            }
            total = total + self.chunks[c].len();
            c += 1;
        }
        assert(self@.chunks.take(c as int) =~= self@.chunks);
        total
    }

    /// Whether nothing is allocated.
    pub fn is_empty(&self) -> (b: bool)
        requires
            self.wf(),
        ensures
            b == (self@.len() == 0),
    {
        let mut c: usize = 0;
        while c < self.chunks.len()
            invariant
                c <= self.chunks.len(),
                count(self@.chunks.take(c as int)) == 0,
                self@.chunks.len() == self.chunks.len(),
            decreases self.chunks.len() - c,
        {
            proof {
                lemma_count_prefix(self@.chunks, c as int);
                lemma_count_prefix(self@.chunks, c as int + 1);
            }
            if !self.chunks[c].is_empty() {
                return false;
            }
            c += 1;
        }
        assert(self@.chunks.take(c as int) =~= self@.chunks);
        true
    }
}

impl<T> Default for Arena<T> {
    fn default() -> (a: Self)
        ensures
            a@ == ArenaModel::<T>::empty(1024),
            a.wf(),
    {
        Arena::new()
    }
}

} // verus!
