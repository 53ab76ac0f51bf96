//! The per-frame feature store: a ring of amplitude vectors addressed by
//! lookback from the most recent write, plus flat per-band vectors.

use vstd::prelude::*;

verus! {

use vstd::arithmetic::div_mod::{
    lemma_fundamental_div_mod, lemma_fundamental_div_mod_converse_mod, lemma_mod_bound,
};

/// The ring slot holding the frame written `i` steps before the slot `idx`,
/// in a ring of `len` slots.
pub open spec fn lookback(len: int, idx: int, i: int) -> int {
    if i <= idx {
        idx - i
    } else {
        idx + len - i
    }
}

/// One ring write: the cursor advances by one, wrapping at `len`, and the
/// frame `w` lands in the slot the cursor now points at.
pub open spec fn ring_step<T>(len: int, idx: int, rows: Seq<Seq<T>>, w: Seq<T>) -> (int, Seq<
    Seq<T>,
>) {
    let next = if idx + 1 < len {
        idx + 1
    } else {
        0
    };
    (next, rows.update(next, w))
}

/// A run of ring writes, earliest write first.
pub open spec fn ring_run<T>(len: int, idx: int, rows: Seq<Seq<T>>, ws: Seq<Seq<T>>) -> (int, Seq<
    Seq<T>,
>)
    decreases ws.len(),
{
    if ws.len() == 0 {
        (idx, rows)
    } else {
        let prev = ring_run(len, idx, rows, ws.drop_last());
        ring_step(len, prev.0, prev.1, ws.last())
    }
}

/// A run of writes keeps the cursor inside the ring and the slot count fixed.
pub proof fn lemma_ring_run_wf<T>(len: int, idx: int, rows: Seq<Seq<T>>, ws: Seq<Seq<T>>)
    requires
        0 <= idx < len,
        rows.len() == len,
    ensures
        0 <= ring_run(len, idx, rows, ws).0 < len,
        ring_run(len, idx, rows, ws).1.len() == len,
    decreases ws.len(),
{
    if ws.len() > 0 {
        lemma_ring_run_wf(len, idx, rows, ws.drop_last());
    }
}

/// Law: after any run of at least `i + 1` ring writes, looking back `i < len`
/// slots from the cursor finds exactly the frame written `i` steps before the
/// last one — the ring keeps the `len` newest frames, addressed by lookback.
/// One write is one `increment_index` followed by one `set_amplitudes`, whose
/// contracts say together that the cursor and rows change exactly as
/// `ring_step` does; `get_amplitudes(i)` returns the row at
/// `lookback(length, index, i % length)`.
pub proof fn lemma_ring_lookback<T>(len: int, idx: int, rows: Seq<Seq<T>>, ws: Seq<Seq<T>>, i: int)
    requires
        0 <= idx < len,
        rows.len() == len,
        0 <= i < len,
        i < ws.len(),
    ensures
        ring_run(len, idx, rows, ws).1[lookback(len, ring_run(len, idx, rows, ws).0, i)] == ws[
            ws.len() - 1 - i
        ],
    decreases ws.len(),
{
    let prev = ring_run(len, idx, rows, ws.drop_last());
    lemma_ring_run_wf(len, idx, rows, ws.drop_last());
    let m = ring_step(len, prev.0, prev.1, ws.last());
    if i == 0 {
        assert(lookback(len, m.0, 0) == m.0);
    } else {
        assert(lookback(len, m.0, i) == lookback(len, prev.0, i - 1));
        assert(lookback(len, m.0, i) != m.0);
        lemma_ring_lookback(len, idx, rows, ws.drop_last(), i - 1);
        assert(ws.drop_last()[ws.drop_last().len() - 1 - (i - 1)] == ws[ws.len() - 1 - i]);
    }
}

/// Stepping a counter by one steps its remainder by one, wrapping at the
/// divisor.
proof fn lemma_mod_succ(x: int, m: int)
    requires
        m >= 1,
        x >= 0,
    ensures
        (x + 1) % m == if x % m + 1 < m {
            x % m + 1
        } else {
            0
        },
{
    lemma_fundamental_div_mod(x, m);
    lemma_mod_bound(x, m);
    let q = x / m;
    let r = x % m;
    if r + 1 < m {
        assert(x + 1 == q * m + (r + 1)) by (nonlinear_arith)
            requires
                x == m * q + r,
        ;
        lemma_fundamental_div_mod_converse_mod(x + 1, m, q, r + 1);
    } else {
        assert(x + 1 == (q + 1) * m + 0) by (nonlinear_arith)
            requires
                x == m * q + r,
                r + 1 == m,
        ;
        lemma_fundamental_div_mod_converse_mod(x + 1, m, q + 1, 0);
    }
}

/// Features contain the output of the frequency sensor stage.
/// `amplitudes` is a ring of the `length` most recent per-band amplitude
/// vectors; `scales`, `diff` and `energy` are flat per-band vectors.
/// The write cursor is always `frame_count % length`, so reading `i` frames
/// back never leaves the ring.
#[derive(Clone, Debug)]
pub struct Features<T> {
    amplitudes: Vec<Vec<T>>,
    scales: Vec<T>,
    diff: Vec<T>,
    energy: Vec<T>,
    size: usize,
    length: usize,
    index: usize,
    frame_count: usize,
}

impl<T: Copy> Features<T> {
    /// The ring holds `length >= 1` rows of `size` bands each, the flat
    /// vectors have one entry per band, and the cursor is the frame count
    /// reduced modulo the ring length.
    pub closed spec fn well_formed(self) -> bool {
        &&& self.amplitudes@.len() == self.length
        &&& 1 <= self.length
        &&& forall|k: int|
            0 <= k < self.amplitudes@.len() ==> (#[trigger] self.amplitudes@[k])@.len()
                == self.size
        &&& self.scales@.len() == self.size
        &&& self.diff@.len() == self.size
        &&& self.energy@.len() == self.size
        &&& self.index == self.frame_count as int % self.length as int
    }

    pub closed spec fn spec_size(self) -> usize {
        self.size
    }

    pub closed spec fn spec_length(self) -> usize {
        self.length
    }

    pub closed spec fn spec_index(self) -> usize {
        self.index
    }

    pub closed spec fn spec_frame_count(self) -> usize {
        self.frame_count
    }

    /// The ring rows, as sequences of band values.
    pub closed spec fn rows(self) -> Seq<Seq<T>> {
        self.amplitudes@.map_values(|row: Vec<T>| row@)
    }

    pub closed spec fn spec_scales(self) -> Seq<T> {
        self.scales@
    }

    pub closed spec fn spec_diff(self) -> Seq<T> {
        self.diff@
    }

    pub closed spec fn spec_energy(self) -> Seq<T> {
        self.energy@
    }

    /// A fresh store: every band of every row holds `fill`, the frame count
    /// is zero and the cursor sits on row zero.
    pub fn new(size: usize, length: usize, fill: T) -> (r: Features<T>)
        requires
            1 <= length,
        ensures
            r.well_formed(),
            r.spec_size() == size,
            r.spec_length() == length,
            r.spec_frame_count() == 0,
            r.spec_index() == 0,
            r.rows() == Seq::new(length as nat, |k: int| Seq::new(size as nat, |j: int| fill)),
            r.spec_scales() == Seq::new(size as nat, |j: int| fill),
            r.spec_diff() == Seq::new(size as nat, |j: int| fill),
            r.spec_energy() == Seq::new(size as nat, |j: int| fill),
    {
        let mut amplitudes: Vec<Vec<T>> = Vec::with_capacity(length);
        for k in 0..length
            invariant
                amplitudes@.len() == k,
                forall|t: int|
                    0 <= t < k ==> (#[trigger] amplitudes@[t])@ == Seq::new(
                        size as nat,
                        |j: int| fill,
                    ),
        {
            let row = Self::filled_vec(size, fill);
            amplitudes.push(row);
        }
        let scales = Self::filled_vec(size, fill);
        let diff = Self::filled_vec(size, fill);
        let energy = Self::filled_vec(size, fill);
        let r = Features { amplitudes, scales, diff, energy, size, length, index: 0, frame_count: 0 };
        proof {
            assert(0int % length as int == 0) by {
                lemma_fundamental_div_mod_converse_mod(0, length as int, 0, 0);
            }
            assert(r.rows() =~= Seq::new(length as nat, |k: int| Seq::new(size as nat, |j: int| fill)));
        }
        r
    }

    fn filled_vec(size: usize, fill: T) -> (r: Vec<T>)
        ensures
            r@ == Seq::new(size as nat, |j: int| fill),
    {
        let mut v: Vec<T> = Vec::with_capacity(size);
        for j in 0..size
            invariant
                v@.len() == j,
                forall|k: int| 0 <= k < j ==> v@[k] == fill,
        {
            v.push(fill);
        }
        proof {
            assert(v@ =~= Seq::new(size as nat, |j: int| fill));
        }
        v
    }

    /// The per-band size and the ring length.
    pub fn get_size(&self) -> (r: (usize, usize))
        ensures
            r.0 == self.spec_size(),
            r.1 == self.spec_length(),
    {
        (self.size, self.length)
    }

    /// Advances the frame count by one and moves the write cursor to
    /// `frame_count % length` — one step forward around the ring. Nothing
    /// else changes.
    pub fn increment_index(&mut self)
        requires
            old(self).well_formed(),
            old(self).spec_frame_count() < usize::MAX,
        ensures
            final(self).well_formed(),
            final(self).spec_size() == old(self).spec_size(),
            final(self).spec_length() == old(self).spec_length(),
            final(self).spec_frame_count() == old(self).spec_frame_count() + 1,
            final(self).spec_index() == if old(self).spec_index() + 1 < old(self).spec_length() {
                old(self).spec_index() + 1
            } else {
                0
            },
            final(self).rows() == old(self).rows(),
            final(self).spec_scales() == old(self).spec_scales(),
            final(self).spec_diff() == old(self).spec_diff(),
            final(self).spec_energy() == old(self).spec_energy(),
    {
        proof {
            lemma_mod_succ(self.frame_count as int, self.length as int);
        }
        self.frame_count = self.frame_count + 1;
        self.index = self.frame_count % self.length;
    }

    /// The ring slot `i` frames back from the most recent write (`i` is taken
    /// modulo the ring length, as a lookback of a full turn lands on the same
    /// slot).
    pub open spec fn slot(self, i: int) -> int {
        lookback(
            self.spec_length() as int,
            self.spec_index() as int,
            i % self.spec_length() as int,
        )
    }

    fn current_index(&self, i: usize) -> (r: usize)
        requires
            self.well_formed(),
        ensures
            r == self.slot(i as int),
            r < self.spec_length(),
    {
        let im: usize = i % self.length;
        if im <= self.index {
            self.index - im
        } else {
            self.length - im + self.index
        }
    }

    /// The amplitude vector written `i` frames before the most recent write.
    pub fn get_amplitudes(&self, i: usize) -> (r: &Vec<T>)
        requires
            self.well_formed(),
        ensures
            r@ == self.rows()[self.slot(i as int)],
            r@.len() == self.spec_size(),
    {
        let k: usize = self.current_index(i);
        &self.amplitudes[k]
    }

    /// Replaces the amplitude vector at the current write cursor; every other
    /// row is kept.
    pub fn set_amplitudes(&mut self, row: Vec<T>)
        requires
            old(self).well_formed(),
            row@.len() == old(self).spec_size(),
        ensures
            final(self).well_formed(),
            final(self).spec_size() == old(self).spec_size(),
            final(self).spec_length() == old(self).spec_length(),
            final(self).spec_frame_count() == old(self).spec_frame_count(),
            final(self).spec_index() == old(self).spec_index(),
            final(self).rows() == old(self).rows().update(old(self).spec_index() as int, row@),
            final(self).spec_scales() == old(self).spec_scales(),
            final(self).spec_diff() == old(self).spec_diff(),
            final(self).spec_energy() == old(self).spec_energy(),
    {
        let k: usize = self.index;
        self.amplitudes[k] = row;
        proof {
            assert(self.rows() =~= old(self).rows().update(old(self).spec_index() as int, row@));
        }
    }

    pub fn get_scales(&self) -> (r: &Vec<T>)
        ensures
            r@ == self.spec_scales(),
    {
        &self.scales
    }

    pub fn get_diff(&self) -> (r: &Vec<T>)
        ensures
            r@ == self.spec_diff(),
    {
        &self.diff
    }

    pub fn get_energy(&self) -> (r: &Vec<T>)
        ensures
            r@ == self.spec_energy(),
    {
        &self.energy
    }

    /// What a write to one flat vector leaves untouched: the sizes, the ring
    /// contents, the cursor and the frame count.
    pub open spec fn same_ring(pre: Features<T>, post: Features<T>) -> bool {
        &&& post.spec_size() == pre.spec_size()
        &&& post.spec_length() == pre.spec_length()
        &&& post.spec_frame_count() == pre.spec_frame_count()
        &&& post.spec_index() == pre.spec_index()
        &&& post.rows() == pre.rows()
    }

    /// Replaces the per-band scales vector; everything else is kept.
    pub fn set_scales(&mut self, v: Vec<T>)
        requires
            old(self).well_formed(),
            v@.len() == old(self).spec_size(),
        ensures
            final(self).well_formed(),
            final(self).spec_scales() == v@,
            final(self).spec_diff() == old(self).spec_diff(),
            final(self).spec_energy() == old(self).spec_energy(),
            Self::same_ring(*old(self), *final(self)),
    {
        self.scales = v;
    }

    /// Replaces the per-band diff vector; everything else is kept.
    pub fn set_diff(&mut self, v: Vec<T>)
        requires
            old(self).well_formed(),
            v@.len() == old(self).spec_size(),
        ensures
            final(self).well_formed(),
            final(self).spec_diff() == v@,
            final(self).spec_scales() == old(self).spec_scales(),
            final(self).spec_energy() == old(self).spec_energy(),
            Self::same_ring(*old(self), *final(self)),
    {
        self.diff = v;
    }

    /// Replaces the per-band energy vector; everything else is kept.
    pub fn set_energy(&mut self, v: Vec<T>)
        requires
            old(self).well_formed(),
            v@.len() == old(self).spec_size(),
        ensures
            final(self).well_formed(),
            final(self).spec_energy() == v@,
            final(self).spec_scales() == old(self).spec_scales(),
            final(self).spec_diff() == old(self).spec_diff(),
            Self::same_ring(*old(self), *final(self)),
    {
        self.energy = v;
    }

    /// The number of writes so far.
    pub fn get_frame_count(&self) -> (r: usize)
        ensures
            r == self.spec_frame_count(),
    {
        self.frame_count
    }

    /// The current write cursor.
    pub fn get_index(&self) -> (r: usize)
        ensures
            r == self.spec_index(),
    {
        self.index
    }
}

} // verus!
