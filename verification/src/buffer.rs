//! A fixed-capacity circular sample store with chronological read-out.

use vstd::prelude::*;

verus! {

/// WindowBuffer implements a sliding circular buffer with a given capacity.
/// Pushing to the buffer advances the write cursor; `get` returns the N most
/// recently pushed elements, oldest first.
pub struct WindowBuffer<T> {
    buffer: Vec<T>,
    index: usize,
    capacity: usize,
}

/// The window left by pushing `s` onto a full window `w`: the oldest
/// `s.len()` elements fall away and `s` arrives at the newest end.
pub open spec fn push_window<T>(w: Seq<T>, s: Seq<T>) -> Seq<T> {
    w.skip(s.len() as int) + s
}

/// The window left by a run of pushes, first push first.
pub open spec fn push_windows<T>(w: Seq<T>, ss: Seq<Seq<T>>) -> Seq<T>
    decreases ss.len(),
{
    if ss.len() == 0 {
        w
    } else {
        push_windows(push_window(w, ss.first()), ss.drop_first())
    }
}

/// Law: pushing `s` into a window and reading the newest `s.len()` elements
/// back returns exactly `s`, in its original order, whatever the window held
/// before. Together with the contracts of `push` and `get` this covers a
/// fresh buffer in particular.
pub proof fn lemma_push_then_get<T>(w: Seq<T>, s: Seq<T>)
    requires
        s.len() <= w.len(),
    ensures
        push_window(w, s).skip(w.len() - s.len()) == s,
{
    assert(push_window(w, s).skip(w.len() - s.len()) =~= s);
}

/// Law: any run of pushes that each fit leaves the window equal to the last
/// `w.len()` elements of the prior window followed by everything pushed, in
/// chronological order.
pub proof fn lemma_push_windows<T>(w: Seq<T>, ss: Seq<Seq<T>>)
    requires
        forall|i: int| 0 <= i < ss.len() ==> #[trigger] ss[i].len() <= w.len(),
    ensures
        push_windows(w, ss) == (w + ss.flatten()).skip(ss.flatten().len() as int),
    decreases ss.len(),
{
    if ss.len() == 0 {
        assert(ss.flatten() =~= Seq::<T>::empty());
        assert((w + ss.flatten()).skip(0) =~= w);
    } else {
        let s0 = ss.first();
        let rest = ss.drop_first();
        let w1 = push_window(w, s0);
        assert(w1.len() == w.len());
        assert forall|i: int| 0 <= i < rest.len() implies #[trigger] rest[i].len() <= w1.len() by {
            assert(rest[i] == ss[i + 1]);
        }
        lemma_push_windows(w1, rest);
        assert(ss.flatten() == s0 + rest.flatten());
        assert((w1 + rest.flatten()).skip(rest.flatten().len() as int) =~= (w + ss.flatten()).skip(
            ss.flatten().len() as int,
        ));
    }
}

/// Law: sequential pushes whose sizes sum to exactly the window's length
/// reproduce the full pushed data in chronological order, across any number
/// of wraparounds.
pub proof fn lemma_pushes_fill_window<T>(w: Seq<T>, ss: Seq<Seq<T>>)
    requires
        forall|i: int| 0 <= i < ss.len() ==> #[trigger] ss[i].len() <= w.len(),
        ss.flatten().len() == w.len(),
    ensures
        push_windows(w, ss) == ss.flatten(),
{
    lemma_push_windows(w, ss);
    assert((w + ss.flatten()).skip(ss.flatten().len() as int) =~= ss.flatten());
}

impl<T: Copy> WindowBuffer<T> {
    /// The storage spans the full (positive) capacity and the write cursor
    /// stays inside it.
    pub closed spec fn well_formed(self) -> bool {
        &&& self.buffer@.len() == self.capacity
        &&& 1 <= self.capacity
        &&& self.index < self.capacity
    }

    pub closed spec fn spec_capacity(self) -> usize {
        self.capacity
    }

    /// The stored window in chronological order: the element about to be
    /// overwritten (the oldest) first, the most recently written last.
    pub closed spec fn window(self) -> Seq<T> {
        self.buffer@.skip(self.index as int) + self.buffer@.take(self.index as int)
    }

    /// A fresh buffer holds `capacity` copies of `fill` and its window is as
    /// long as its capacity.
    pub fn new(capacity: usize, fill: T) -> (r: WindowBuffer<T>)
        requires
            1 <= capacity,
        ensures
            r.well_formed(),
            r.spec_capacity() == capacity,
            r.window() == Seq::new(capacity as nat, |i: int| fill),
    {
        let mut buffer: Vec<T> = Vec::with_capacity(capacity);
        for j in 0..capacity
            invariant
                buffer@.len() == j,
                forall|k: int| 0 <= k < j ==> buffer@[k] == fill,
        {
            buffer.push(fill);
        }
        let r = WindowBuffer { buffer, index: 0, capacity };
        proof {
            assert(r.window() =~= Seq::new(capacity as nat, |i: int| fill));
        }
        r
    }

    pub fn capacity(&self) -> (r: usize)
        ensures
            r == self.spec_capacity(),
    {
        self.capacity
    }

    /// Writes `x` at the cursor, wrapping around the end of the storage, and
    /// advances the cursor by `x.len()` modulo the capacity. The resulting
    /// window drops the `x.len()` oldest elements and ends with `x`.
    pub fn push(&mut self, x: &Vec<T>)
        requires
            old(self).well_formed(),
            x@.len() <= old(self).spec_capacity(),
        ensures
            final(self).well_formed(),
            final(self).spec_capacity() == old(self).spec_capacity(),
            final(self).window() == push_window(old(self).window(), x@),
    {
        let len = x.len();
        let remaining = self.capacity - self.index;
        if len <= remaining {
            let start = self.index;
            for j in 0..len
                invariant
                    self.capacity == old(self).capacity,
                    self.index == old(self).index,
                    start == self.index,
                    len == x@.len() <= remaining == self.capacity - self.index,
                    self.buffer@.len() == self.capacity,
                    forall|k: int| 0 <= k < j ==> self.buffer@[start + k] == x@[k],
                    forall|k: int| 0 <= k < self.capacity && !(start <= k < start + j)
                        ==> self.buffer@[k] == old(self).buffer@[k],
            {
                self.buffer[start + j] = x[j];
            }
            self.index = if len == remaining { 0 } else { self.index + len };
            proof {
                assert(self.window() =~= push_window(old(self).window(), x@));
            }
        } else {
            let start = self.index;
            for j in 0..remaining
                invariant
                    self.capacity == old(self).capacity,
                    self.index == old(self).index,
                    start == self.index,
                    remaining == self.capacity - self.index,
                    remaining < len == x@.len() <= self.capacity,
                    self.buffer@.len() == self.capacity,
                    forall|k: int| 0 <= k < j ==> self.buffer@[start + k] == x@[k],
                    forall|k: int| 0 <= k < self.capacity && !(start <= k < start + j)
                        ==> self.buffer@[k] == old(self).buffer@[k],
            {
                self.buffer[start + j] = x[j];
            }
            let wrapped = len - remaining;
            for j in 0..wrapped
                invariant
                    self.capacity == old(self).capacity,
                    self.index == old(self).index,
                    start == self.index,
                    remaining == self.capacity - self.index,
                    remaining < len == x@.len() <= self.capacity,
                    wrapped == len - remaining,
                    self.buffer@.len() == self.capacity,
                    forall|k: int| 0 <= k < remaining ==> self.buffer@[start + k] == x@[k],
                    forall|k: int| 0 <= k < j ==> self.buffer@[k] == x@[remaining + k],
                    forall|k: int| j <= k < start ==> self.buffer@[k] == old(self).buffer@[k],
            {
                self.buffer[j] = x[remaining + j];
            }
            self.index = wrapped;
            proof {
                assert(self.window() =~= push_window(old(self).window(), x@));
            }
        }
    }

    /// Returns the `size` most recently pushed elements in chronological
    /// (oldest-to-newest) order, reading backward from the cursor with
    /// wraparound. No side effects.
    pub fn get(&self, size: usize) -> (r: Vec<T>)
        requires
            self.well_formed(),
            size <= self.spec_capacity(),
        ensures
            r@ == self.window().skip(self.spec_capacity() - size),
    {
        let mut out: Vec<T> = Vec::with_capacity(size);
        if size <= self.index {
            let start = self.index - size;
            for j in 0..size
                invariant
                    self.well_formed(),
                    size <= self.index,
                    start == self.index - size,
                    out@.len() == j,
                    forall|k: int| 0 <= k < j ==> out@[k] == self.buffer@[start + k],
            {
                out.push(self.buffer[start + j]);
            }
        } else {
            let head = size - self.index;
            let start = self.capacity - head;
            for j in 0..head
                invariant
                    self.well_formed(),
                    self.index < size <= self.capacity,
                    head == size - self.index,
                    start == self.capacity - head,
                    out@.len() == j,
                    forall|k: int| 0 <= k < j ==> out@[k] == self.buffer@[start + k],
            {
                out.push(self.buffer[start + j]);
            }
            for j in 0..self.index
                invariant
                    self.well_formed(),
                    self.index < size <= self.capacity,
                    head == size - self.index,
                    start == self.capacity - head,
                    out@.len() == head + j,
                    forall|k: int| 0 <= k < head ==> out@[k] == self.buffer@[start + k],
                    forall|k: int| 0 <= k < j ==> out@[head + k] == self.buffer@[k],
            {
                out.push(self.buffer[j]);
            }
        }
        proof {
            assert(out@ =~= self.window().skip(self.spec_capacity() - size));
        }
        out
    }
}

} // verus!
