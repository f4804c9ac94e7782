//! A fixed-size ring buffer.

use vstd::prelude::*;

verus! {

/// A ring buffer with `N` slots, which holds at most `N - 1` values: the
/// values are in the slots from `read_index` up to (not including)
/// `write_index`, wrapping around.
pub struct RingBuffer<T, const N: usize> {
    buffer: Vec<Option<T>>,
    read_index: usize,
    write_index: usize,
}

impl<T, const N: usize> RingBuffer<T, N> {
    /// The number of values held.
    pub closed spec fn spec_len(&self) -> int {
        if self.write_index >= self.read_index {
            self.write_index - self.read_index
        } else {
            self.write_index + N - self.read_index
        }
    }

    /// The slot of the `i`-th value held.
    pub closed spec fn slot(&self, i: int) -> int {
        if self.read_index + i < N {
            self.read_index + i
        } else {
            self.read_index + i - N
        }
    }

    /// The indices are in range and every slot that holds a value is filled.
    pub closed spec fn wf(&self) -> bool {
        &&& N > 0
        &&& self.buffer@.len() == N
        &&& self.read_index < N
        &&& self.write_index < N
        &&& forall|i: int| 0 <= i < self.spec_len() ==> #[trigger] self.buffer@[self.slot(i)] is Some
    }

    /// The values held, oldest first.
    pub closed spec fn view(&self) -> Seq<T> {
        Seq::new(self.spec_len() as nat, |i: int| self.buffer@[self.slot(i)]->0)
    }

    /// No more values fit.
    pub open spec fn is_full(&self) -> bool {
        self@.len() == N - 1
    }

    /// A buffer holds at most `N - 1` values.
    pub proof fn lemma_len_bound(&self)
        requires
            self.wf(),
        ensures
            self@.len() <= N - 1,
    {
    }

    /// Adds a value at the end, unless the buffer is full.
    pub fn try_push(&mut self, value: T) -> (r: bool)
        requires
            old(self).wf(),
        ensures
            final(self).wf(),
            r == !old(self).is_full(),
            r == (old(self)@.len() < N - 1),
            r ==> final(self)@ == old(self)@.push(value),
            !r ==> final(self)@ == old(self)@,
            final(self)@ == ring_run(old(self)@, seq![RingOp::Push(value)], N as int).1,
    {
        proof {
            reveal_with_fuel(ring_run, 2);
            assert(seq![RingOp::Push(value)].drop_first() =~= Seq::<RingOp<T>>::empty());
        }
        let next_index = if self.write_index + 1 == N {
            0
        } else {
            self.write_index + 1
        };
        if next_index == self.read_index {
            return false;
        }
        let ghost old_view = self@;
        let w = self.write_index;
        self.buffer.set(w, Some(value));
        self.write_index = next_index;
        proof {
            assert(self.spec_len() == old(self).spec_len() + 1);
            assert forall|i: int| 0 <= i < self.spec_len() implies #[trigger] self.buffer@[self.slot(i)] is Some by {
                assert(self.slot(i) == old(self).slot(i));
                if i < old(self).spec_len() {
                    assert(old(self).buffer@[old(self).slot(i)] is Some);
                }
            }
            assert forall|i: int| 0 <= i < old(self).spec_len() implies #[trigger] self.buffer@[self.slot(i)]
                == old(self).buffer@[old(self).slot(i)] by {
                assert(self.slot(i) == old(self).slot(i));
            }
            assert(self@ =~= old_view.push(value));
        }
        true
    }

    /// Adds a value at the end; the buffer must not be full.
    pub fn push(&mut self, value: T)
        requires
            old(self).wf(),
            !old(self).is_full(),
        ensures
            final(self).wf(),
            final(self)@ == old(self)@.push(value),
    {
        let pushed = self.try_push(value);
        assert(pushed);
    }

    /// Adds a value at the end; when the buffer is full, the oldest value is
    /// dropped to make room.
    pub fn push_replace(&mut self, value: T)
        requires
            old(self).wf(),
            N > 1,
        ensures
            final(self).wf(),
            !old(self).is_full() ==> final(self)@ == old(self)@.push(value),
            old(self).is_full() ==> final(self)@ == old(self)@.drop_first().push(value),
    {
        let next_index = if self.write_index + 1 == N {
            0
        } else {
            self.write_index + 1
        };
        if next_index == self.read_index {
            let _oldest = self.pop();
        }
        self.push(value);
    }

    /// Takes the oldest value out; none when the buffer is empty.
    pub fn pop(&mut self) -> (r: Option<T>)
        requires
            old(self).wf(),
        ensures
            final(self).wf(),
            old(self)@.len() == 0 ==> r is None && final(self)@ == old(self)@,
            old(self)@.len() > 0 ==> r == Some(old(self)@[0]) && final(self)@ == old(self)@.drop_first(),
            final(self)@ == ring_run(old(self)@, seq![RingOp::<T>::Pop], N as int).1,
            ring_run(old(self)@, seq![RingOp::<T>::Pop], N as int).0 == match r {
                Some(v) => seq![v],
                None => Seq::<T>::empty(),
            },
    {
        proof {
            reveal_with_fuel(ring_run, 2);
            assert(seq![RingOp::<T>::Pop].drop_first() =~= Seq::<RingOp<T>>::empty());
            if old(self)@.len() > 0 {
                let q = old(self)@;
                assert(seq![q[0]] + Seq::<T>::empty() =~= seq![q[0]]);
            }
        }
        if self.read_index == self.write_index {
            return None;
        }
        let ghost old_view = self@;
        let ri = self.read_index;
        assert(old(self).slot(0) == ri);
        assert(self.buffer@[old(self).slot(0)] is Some);
        let value = self.buffer.remove(ri);
        self.buffer.insert(ri, None);
        self.read_index = if ri + 1 == N {
            0
        } else {
            ri + 1
        };
        proof {
            assert(self.spec_len() == old(self).spec_len() - 1);
            assert forall|i: int| 0 <= i < self.spec_len() implies #[trigger] self.buffer@[self.slot(i)] == old(
                self,
            ).buffer@[old(self).slot(i + 1)] && self.buffer@[self.slot(i)] is Some by {
                assert(self.slot(i) == old(self).slot(i + 1));
                assert(old(self).slot(i + 1) != ri);
                assert(old(self).buffer@[old(self).slot(i + 1)] is Some);
            }
            assert(self@ =~= old_view.drop_first());
        }
        match value {
            Some(v) => Some(v),
            None => None,
        }
    }

    /// Forgets all values.
    pub fn clear(&mut self)
        requires
            old(self).wf(),
        ensures
            final(self).wf(),
            final(self)@.len() == 0,
    {
        self.read_index = 0;
        self.write_index = 0;
        assert(self@ =~= Seq::<T>::empty());
    }

    /// An empty buffer of `N` slots.
    pub fn empty() -> (r: Self)
        requires
            N > 0,
        ensures
            r.wf(),
            r@.len() == 0,
    {
        let mut buffer: Vec<Option<T>> = Vec::new();
        let mut i: usize = 0;
        while i < N
            invariant
                i <= N,
                buffer@.len() == i,
            decreases N - i,
        {
            buffer.push(None);
            i = i + 1;
        }
        let r = RingBuffer { buffer, read_index: 0, write_index: 0 };
        assert(r@ =~= Seq::<T>::empty());
        r
    }
}

/// One call on a ring buffer: a push of a value, or a pop.
pub ghost enum RingOp<T> {
    Push(T),
    Pop,
}

/// The values a run of calls takes out, and the values held after it,
/// starting from the values `q`, for a buffer of `n` slots: a push is
/// refused when `n - 1` values are held, a pop on no values takes nothing
/// out (as `try_push` and `pop` do).
pub open spec fn ring_run<T>(q: Seq<T>, ops: Seq<RingOp<T>>, n: int) -> (Seq<T>, Seq<T>)
    decreases ops.len(),
{
    if ops.len() == 0 {
        (Seq::empty(), q)
    } else {
        let rest = ops.drop_first();
        match ops[0] {
            RingOp::Push(v) => if q.len() < n - 1 {
                ring_run(q.push(v), rest, n)
            } else {
                ring_run(q, rest, n)
            },
            RingOp::Pop => if q.len() > 0 {
                let (out, last) = ring_run(q.drop_first(), rest, n);
                (seq![q[0]] + out, last)
            } else {
                ring_run(q, rest, n)
            },
        }
    }
}

/// The values a run of calls pushes and the buffer takes in.
pub open spec fn ring_accepted<T>(q: Seq<T>, ops: Seq<RingOp<T>>, n: int) -> Seq<T>
    decreases ops.len(),
{
    if ops.len() == 0 {
        Seq::empty()
    } else {
        let rest = ops.drop_first();
        match ops[0] {
            RingOp::Push(v) => if q.len() < n - 1 {
                seq![v] + ring_accepted(q.push(v), rest, n)
            } else {
                ring_accepted(q, rest, n)
            },
            RingOp::Pop => if q.len() > 0 {
                ring_accepted(q.drop_first(), rest, n)
            } else {
                ring_accepted(q, rest, n)
            },
        }
    }
}

/// First in, first out: over any run of calls, the values taken out followed
/// by the values still held are the values held at the start followed by
/// the values the buffer took in, in the order they were pushed.
pub proof fn lemma_ring_fifo<T>(q: Seq<T>, ops: Seq<RingOp<T>>, n: int)
    ensures
        ring_run(q, ops, n).0 + ring_run(q, ops, n).1 == q + ring_accepted(q, ops, n),
    decreases ops.len(),
{
    if ops.len() > 0 {
        let rest = ops.drop_first();
        match ops[0] {
            RingOp::Push(v) => {
                if q.len() < n - 1 {
                    lemma_ring_fifo(q.push(v), rest, n);
                    assert(q.push(v) + ring_accepted(q.push(v), rest, n) =~= q + (seq![v] + ring_accepted(
                        q.push(v),
                        rest,
                        n,
                    )));
                } else {
                    lemma_ring_fifo(q, rest, n);
                }
            },
            RingOp::Pop => {
                if q.len() > 0 {
                    lemma_ring_fifo(q.drop_first(), rest, n);
                    let (out, last) = ring_run(q.drop_first(), rest, n);
                    assert(seq![q[0]] + out + last =~= seq![q[0]] + (out + last));
                    assert(seq![q[0]] + q.drop_first() =~= q);
                    assert(seq![q[0]] + (q.drop_first() + ring_accepted(q.drop_first(), rest, n)) =~= q
                        + ring_accepted(q.drop_first(), rest, n));
                } else {
                    lemma_ring_fifo(q, rest, n);
                }
            },
        }
    } else {
        assert(Seq::<T>::empty() + q =~= q + Seq::<T>::empty());
    }
}

/// Pushes of the values `vs`, in order.
pub open spec fn pushes<T>(vs: Seq<T>) -> Seq<RingOp<T>> {
    Seq::new(vs.len(), |i: int| RingOp::Push(vs[i]))
}

/// `k` pops.
pub open spec fn pops<T>(k: nat) -> Seq<RingOp<T>> {
    Seq::new(k, |i: int| RingOp::<T>::Pop)
}

proof fn lemma_run_pushes<T>(q: Seq<T>, vs: Seq<T>, rest: Seq<RingOp<T>>, n: int)
    requires
        q.len() + vs.len() <= n - 1,
    ensures
        ring_run(q, pushes(vs) + rest, n) == ring_run(q + vs, rest, n),
    decreases vs.len(),
{
    if vs.len() == 0 {
        assert(pushes(vs) + rest =~= rest);
        assert(q + vs =~= q);
    } else {
        let ops = pushes(vs) + rest;
        assert(ops[0] == RingOp::Push(vs[0]));
        assert(ops.drop_first() =~= pushes(vs.drop_first()) + rest);
        lemma_run_pushes(q.push(vs[0]), vs.drop_first(), rest, n);
        assert(q.push(vs[0]) + vs.drop_first() =~= q + vs);
    }
}

proof fn lemma_run_pops<T>(q: Seq<T>, n: int)
    ensures
        ring_run(q, pops(q.len()), n) == (q, Seq::<T>::empty()),
    decreases q.len(),
{
    if q.len() > 0 {
        let ops = pops::<T>(q.len());
        assert(ops.drop_first() =~= pops::<T>(q.drop_first().len()));
        lemma_run_pops(q.drop_first(), n);
        assert(seq![q[0]] + q.drop_first() =~= q);
    } else {
        assert(pops::<T>(0) =~= Seq::<RingOp<T>>::empty());
    }
}

/// From an empty buffer of `n` slots, up to `n - 1` values pushed are all
/// taken in, and as many pops then give them back in the order they were
/// pushed, leaving the buffer empty.
pub proof fn lemma_ring_push_then_pop<T>(vs: Seq<T>, n: int)
    requires
        vs.len() <= n - 1,
    ensures
        ring_run(Seq::<T>::empty(), pushes(vs) + pops(vs.len()), n) == (vs, Seq::<T>::empty()),
{
    lemma_run_pushes(Seq::<T>::empty(), vs, pops(vs.len()), n);
    assert(Seq::<T>::empty() + vs =~= vs);
    lemma_run_pops(vs, n);
}

} // verus!
