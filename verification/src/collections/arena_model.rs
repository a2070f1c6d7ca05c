//! The mathematical model of an arena: chunks of items in allocation order.

use vstd::prelude::*;

verus! {

/// The number of items in a sequence of chunks.
pub open spec fn count<T>(chunks: Seq<Seq<T>>) -> nat
    decreases chunks.len(),
{
    if chunks.len() == 0 {
        0
    } else {
        count(chunks.drop_last()) + chunks.last().len()
    }
}

/// An arena as a mathematical value.
pub struct ArenaModel<T> {
    /// The chunks, oldest first; each holds its items in allocation order.
    pub chunks: Seq<Seq<T>>,
    /// The configured chunk capacity.
    pub chunk_size: nat,
}

impl<T> ArenaModel<T> {
    /// The arena with no chunk, configured for chunks of `chunk_size` items.
    pub open spec fn empty(chunk_size: nat) -> Self {
        ArenaModel { chunks: Seq::empty(), chunk_size }
    }

    /// How many items a chunk takes before the next chunk is started: the
    /// configured capacity, but never less than the one item a new chunk is
    /// started for.
    pub open spec fn capacity(self) -> nat {
        if self.chunk_size == 0 {
            1
        } else {
            self.chunk_size
        }
    }

    /// No chunk is empty or over capacity, and every chunk but the last is
    /// full.
    pub open spec fn wf(self) -> bool {
        forall|c: int|
            0 <= c < self.chunks.len() ==> {
                &&& 1 <= (#[trigger] self.chunks[c]).len() <= self.capacity()
                &&& c + 1 < self.chunks.len() ==> self.chunks[c].len() == self.capacity()
            }
    }

    /// The number of allocated items.
    pub open spec fn len(self) -> nat {
        count(self.chunks)
    }

    /// Whether the next allocation starts a new chunk: there is no chunk
    /// yet, or the last one has reached the configured capacity.
    pub open spec fn needs_new_chunk(self) -> bool {
        self.chunks.len() == 0 || self.chunks.last().len() >= self.chunk_size
    }

    /// The arena after allocating `value`.
    pub open spec fn push(self, value: T) -> Self {
        if self.needs_new_chunk() {
            ArenaModel { chunks: self.chunks.push(seq![value]), chunk_size: self.chunk_size }
        } else {
            ArenaModel {
                chunks: self.chunks.update(
                    self.chunks.len() - 1,
                    self.chunks.last().push(value),
                ),
                chunk_size: self.chunk_size,
            }
        }
    }

    /// The arena after a clear: no chunk is left, the configuration stays.
    pub open spec fn clear(self) -> Self {
        ArenaModel { chunks: Seq::empty(), chunk_size: self.chunk_size }
    }

    /// The item at offset `o` of chunk `c`, if there is one.
    pub open spec fn item_at(self, c: int, o: int) -> Option<T> {
        if 0 <= c < self.chunks.len() && 0 <= o < self.chunks[c].len() {
            Some(self.chunks[c][o])
        } else {
            None
        }
    }

    /// The chunk that holds the `index`-th item.
    pub open spec fn chunk_of(self, index: nat) -> int {
        index as int / self.capacity() as int
    }

    /// The offset of the `index`-th item within its chunk.
    pub open spec fn offset_of(self, index: nat) -> int {
        index as int % self.capacity() as int
    }

    /// The item allocated `index`-th (from zero) since the last clear.
    pub open spec fn get(self, index: nat) -> Option<T> {
        if index < self.len() {
            Some(self.chunks[self.chunk_of(index)][self.offset_of(index)])
        } else {
            None
        }
    }
}

/// Counting after one more chunk.
pub proof fn lemma_count_push<T>(chunks: Seq<Seq<T>>, chunk: Seq<T>)
    ensures
        count(chunks.push(chunk)) == count(chunks) + chunk.len(),
{
    assert(chunks.push(chunk).drop_last() =~= chunks);
}

/// Counting after the last chunk was replaced.
pub proof fn lemma_count_update_last<T>(chunks: Seq<Seq<T>>, chunk: Seq<T>)
    requires
        chunks.len() > 0,
    ensures
        count(chunks.update(chunks.len() - 1, chunk)) == count(chunks) - chunks.last().len()
            + chunk.len(),
{
    assert(chunks.update(chunks.len() - 1, chunk).drop_last() =~= chunks.drop_last());
}

/// A prefix of the chunks holds no more items than all of them.
pub proof fn lemma_count_prefix<T>(chunks: Seq<Seq<T>>, n: int)
    requires
        0 <= n <= chunks.len(),
    ensures
        count(chunks.take(n)) <= count(chunks),
        n < chunks.len() ==> count(chunks.take(n + 1)) == count(chunks.take(n)) + chunks[n].len(),
    decreases chunks.len() - n,
{
    if n < chunks.len() {
        assert(chunks.take(n + 1).drop_last() =~= chunks.take(n));
        lemma_count_prefix(chunks, n + 1);
    } else {
        assert(chunks.take(n) =~= chunks);
    }
}

impl<T> ArenaModel<T> {
    /// In a well-formed arena every chunk but the last is full, so the count
    /// is the full chunks' capacity plus what the last chunk holds.
    pub proof fn lemma_len_closed_form(self)
        requires
            self.wf(),
        ensures
            self.chunks.len() == 0 ==> self.len() == 0,
            self.chunks.len() > 0 ==> self.len() == (self.chunks.len() - 1) * self.capacity()
                + self.chunks.last().len(),
        decreases self.chunks.len(),
    {
        if self.chunks.len() > 1 {
            let rest = ArenaModel { chunks: self.chunks.drop_last(), chunk_size: self.chunk_size };
            assert forall|c: int| 0 <= c < rest.chunks.len() implies {
                &&& 1 <= (#[trigger] rest.chunks[c]).len() <= rest.capacity()
                &&& c + 1 < rest.chunks.len() ==> rest.chunks[c].len() == rest.capacity()
            } by {
                assert(rest.chunks[c] == self.chunks[c]);
            }
            rest.lemma_len_closed_form();
            assert(rest.chunks.last() == self.chunks[self.chunks.len() - 2]);
            assert((self.chunks.len() - 1) * self.capacity() == (self.chunks.len() - 2)
                * self.capacity() + self.capacity()) by (nonlinear_arith);
        } else if self.chunks.len() == 1 {
            assert(self.chunks.drop_last().len() == 0);
            assert(count(self.chunks.drop_last()) == 0);
            assert((self.chunks.len() - 1) * self.capacity() == 0) by (nonlinear_arith)
                requires
                    self.chunks.len() == 1,
            ;
        }
    }

    /// Allocation keeps an arena well formed, adds one to the count, puts the
    /// value last, and leaves every earlier item where it was.
    pub proof fn lemma_push(self, value: T)
        requires
            self.wf(),
        ensures
            self.push(value).wf(),
            self.push(value).len() == self.len() + 1,
            self.push(value).get(self.len()) == Some(value),
            forall|i: nat| i < self.len() ==> self.push(value).get(i) == self.get(i),
            forall|c: int, o: int|
                (#[trigger] self.item_at(c, o)) is Some ==> self.push(value).item_at(c, o)
                    == self.item_at(c, o),
    {
        let after = self.push(value);
        let cap = self.capacity() as int;
        self.lemma_len_closed_form();
        if self.needs_new_chunk() {
            lemma_count_push(self.chunks, seq![value]);
            if self.chunks.len() > 0 {
                assert(self.chunks.last().len() == cap);
            }
        } else {
            lemma_count_update_last(self.chunks, self.chunks.last().push(value));
        }
        assert(after.wf());
        after.lemma_len_closed_form();
        let n = self.len();
        assert forall|i: nat| i <= n implies {
            &&& 0 <= after.chunk_of(i) < after.chunks.len()
            &&& 0 <= after.offset_of(i) < after.chunks[after.chunk_of(i)].len()
            &&& i < n ==> self.chunk_of(i) < self.chunks.len() && self.offset_of(i)
                < self.chunks[self.chunk_of(i)].len()
            &&& i == n ==> #[trigger] after.get(i) == Some(value)
        } by {
            after.lemma_locate(i);
            if i < n {
                self.lemma_locate(i);
            }
        }
    }

    /// Where the `index`-th item stands: in chunk `index / capacity`, at
    /// offset `index % capacity`.
    pub proof fn lemma_locate(self, index: nat)
        requires
            self.wf(),
            index < self.len(),
        ensures
            0 <= self.chunk_of(index) < self.chunks.len(),
            0 <= self.offset_of(index) < self.chunks[self.chunk_of(index)].len(),
            index + 1 == self.len() ==> {
                &&& self.chunk_of(index) == self.chunks.len() - 1
                &&& self.offset_of(index) == self.chunks.last().len() - 1
            },
    {
        self.lemma_len_closed_form();
        let cap = self.capacity() as int;
        let i = index as int;
        let k = self.chunks.len() - 1;
        let l = self.chunks.last().len() as int;
        assert(self.len() == k * cap + l);
        assert(1 <= l <= cap);
        assert(0 <= i / cap <= k && (i / cap == k ==> i % cap < l) && (i + 1 == k * cap + l
            ==> i / cap == k && i % cap == l - 1)) by (nonlinear_arith)
            requires
                0 <= i < k * cap + l,
                1 <= l <= cap,
                0 <= k,
        ;
        assert(0 <= i % cap < cap) by (nonlinear_arith)
            requires
                cap > 0,
        ;
    }

    /// The item at offset `o` of chunk `c` is the `c * capacity + o`-th.
    pub proof fn lemma_located(self, c: int, o: int)
        requires
            self.wf(),
            0 <= c < self.chunks.len(),
            0 <= o < self.chunks[c].len(),
        ensures
            c * self.capacity() + o < self.len(),
            self.chunk_of((c * self.capacity() + o) as nat) == c,
            self.offset_of((c * self.capacity() + o) as nat) == o,
    {
        self.lemma_len_closed_form();
        let cap = self.capacity() as int;
        let k = self.chunks.len() - 1;
        let l = self.chunks.last().len() as int;
        assert(o < cap);
        assert(c < k ==> self.chunks[c].len() == cap);
        assert(0 <= c * cap + o < k * cap + l && (c * cap + o) / cap == c && (c * cap + o) % cap
            == o) by (nonlinear_arith)
            requires
                0 <= c <= k,
                0 <= o < cap,
                c == k ==> o < l,
                1 <= l <= cap,
        ;
    }
}

} // verus!
