//! Log-spaced frequency bucket boundaries: a strictly-advancing boundary
//! placer over a linear spectrum, and the bucket ranges it induces.

use vstd::prelude::*;

verus! {

/// Where a proposed boundary is forced to when it fails to advance past the
/// boundary placed before it.
pub open spec fn forced_index(last: int, raw: int) -> int {
    if raw <= last {
        last + 1
    } else {
        raw
    }
}

/// The boundary actually placed for a proposal `raw`: forced to advance past
/// `last`, then clamped into the spectrum at `input_size - 1`.
pub open spec fn placed_index(input_size: int, last: int, raw: int) -> int {
    if forced_index(last, raw) >= input_size {
        input_size - 1
    } else {
        forced_index(last, raw)
    }
}

/// Bucketer maps a linear spectrum of `input_size` bins onto `buckets`
/// log-spaced bands. It holds the `buckets - 1` interior boundary indices,
/// placed one at a time; whenever a proposed boundary fails to advance it is
/// forced to `previous + 1` and the `offset` accumulator is incremented so
/// the caller can compensate later proposals. A boundary past the end of the
/// spectrum is clamped to the last bin.
pub struct Bucketer {
    indices: Vec<usize>,
    input_size: usize,
    buckets: usize,
    last: usize,
    offset: usize,
}

impl Bucketer {
    /// Boundaries stay inside `[1, input_size - 1]` and advance strictly,
    /// except that the top bin may repeat once boundaries saturate there.
    pub closed spec fn well_formed(self) -> bool {
        &&& 2 <= self.buckets
        &&& 2 <= self.input_size
        &&& self.indices@.len() <= self.buckets - 1
        &&& forall|k: int|
            0 <= k < self.indices@.len() ==> 1 <= #[trigger] self.indices@[k]
                <= self.input_size - 1
        &&& forall|j: int, k: int|
            0 <= j < k < self.indices@.len() ==> (self.indices@[j] < self.indices@[k] || (
            self.indices@[j] == self.input_size - 1 && self.indices@[k] == self.input_size - 1))
        &&& self.last == if self.indices@.len() == 0 {
            0int
        } else {
            self.indices@.last() as int
        }
        &&& self.offset <= self.indices@.len()
    }

    pub closed spec fn boundaries(self) -> Seq<usize> {
        self.indices@
    }

    pub closed spec fn spec_input_size(self) -> usize {
        self.input_size
    }

    pub closed spec fn spec_buckets(self) -> usize {
        self.buckets
    }

    pub closed spec fn spec_offset(self) -> usize {
        self.offset
    }

    /// All `buckets - 1` interior boundaries have been placed.
    pub open spec fn complete(self) -> bool {
        self.boundaries().len() == self.spec_buckets() - 1
    }

    /// An empty placer for `buckets` bands over `input_size` spectrum bins.
    pub fn new(input_size: usize, buckets: usize) -> (r: Bucketer)
        requires
            2 <= buckets,
            2 <= input_size,
        ensures
            r.well_formed(),
            r.spec_input_size() == input_size,
            r.spec_buckets() == buckets,
            r.boundaries() == Seq::<usize>::empty(),
            r.spec_offset() == 0,
    {
        let r = Bucketer { indices: Vec::new(), input_size, buckets, last: 0, offset: 0 };
        proof {
            assert(r.boundaries() =~= Seq::<usize>::empty());
        }
        r
    }

    /// The number of spectrum bins the bucketer was built for.
    pub fn input_size(&self) -> (r: usize)
        ensures
            r == self.spec_input_size(),
    {
        self.input_size
    }

    /// The number of output bands.
    pub fn buckets(&self) -> (r: usize)
        ensures
            r == self.spec_buckets(),
    {
        self.buckets
    }

    /// How many boundaries have been placed so far.
    pub fn boundary_count(&self) -> (r: usize)
        ensures
            r == self.boundaries().len(),
    {
        self.indices.len()
    }

    /// Whether all interior boundaries have been placed.
    pub fn is_complete(&self) -> (r: bool)
        requires
            self.well_formed(),
        ensures
            r == self.complete(),
    {
        self.indices.len() == self.buckets - 1
    }

    /// The number of boundaries that had to be forced up so far; the caller
    /// folds this compensation into its next proposal.
    pub fn offset(&self) -> (r: usize)
        ensures
            r == self.spec_offset(),
    {
        self.offset
    }

    /// The boundary indices placed so far.
    pub fn indices(&self) -> (r: &Vec<usize>)
        ensures
            r@ == self.boundaries(),
    {
        &self.indices
    }

    /// Places the next boundary for the proposal `raw`: it lands at
    /// `placed_index`, and the offset accumulator grows exactly when the
    /// proposal failed to advance.
    pub fn push_boundary(&mut self, raw: usize)
        requires
            old(self).well_formed(),
            !old(self).complete(),
        ensures
            final(self).well_formed(),
            final(self).spec_input_size() == old(self).spec_input_size(),
            final(self).spec_buckets() == old(self).spec_buckets(),
            final(self).boundaries() == old(self).boundaries().push(
                placed_index(
                    old(self).spec_input_size() as int,
                    if old(self).boundaries().len() == 0 {
                        0int
                    } else {
                        old(self).boundaries().last() as int
                    },
                    raw as int,
                ) as usize,
            ),
            final(self).spec_offset() == old(self).spec_offset() + (if raw as int <= (
            if old(self).boundaries().len() == 0 {
                0int
            } else {
                old(self).boundaries().last() as int
            }) {
                1int
            } else {
                0int
            }),
    {
        let mut idx: usize = raw;
        if raw <= self.last {
            idx = self.last + 1;
            self.offset = self.offset + 1;
        }
        if idx >= self.input_size {
            idx = self.input_size - 1;
        }
        self.indices.push(idx);
        self.last = idx;
    }

    /// The half-open range of spectrum bins averaged into band `i`: the first
    /// band starts at bin 0, the last ends at `input_size`, and interior
    /// edges are the placed boundaries.
    pub open spec fn spec_range(self, i: int) -> (int, int) {
        (
            if i == 0 {
                0int
            } else {
                self.boundaries()[i - 1] as int
            },
            if i == self.spec_buckets() - 1 {
                self.spec_input_size() as int
            } else {
                self.boundaries()[i] as int
            },
        )
    }

    /// The bin range of band `i`, for a fully placed Bucketer. Consecutive
    /// bands tile the spectrum: each band ends where the next begins, band 0
    /// starts at bin 0 and the final band always ends at `input_size`.
    pub fn range(&self, i: usize) -> (r: (usize, usize))
        requires
            self.well_formed(),
            self.complete(),
            i < self.spec_buckets(),
        ensures
            r.0 == self.spec_range(i as int).0,
            r.1 == self.spec_range(i as int).1,
            r.0 <= r.1 <= self.spec_input_size(),
    {
        let start: usize = if i == 0 {
            0
        } else {
            self.indices[i - 1]
        };
        let stop: usize = if i == self.buckets - 1 {
            self.input_size
        } else {
            self.indices[i]
        };
        (start, stop)
    }
}

/// Law: the bands of a fully placed Bucketer tile the spectrum. The first
/// band starts at bin 0, each band ends where the next begins, every range is
/// within bounds and ordered, and the final implied boundary is always
/// exactly `input_size`.
pub proof fn lemma_ranges_tile(b: Bucketer)
    requires
        b.well_formed(),
        b.complete(),
    ensures
        b.spec_range(0).0 == 0,
        b.spec_range(b.spec_buckets() - 1).1 == b.spec_input_size(),
        forall|i: int|
            0 <= i < b.spec_buckets() - 1 ==> #[trigger] b.spec_range(i).1 == b.spec_range(
                i + 1,
            ).0,
        forall|i: int|
            0 <= i < b.spec_buckets() ==> 0 <= #[trigger] b.spec_range(i).0 <= b.spec_range(i).1
                <= b.spec_input_size(),
{
    assert forall|i: int|
        0 <= i < b.spec_buckets() implies 0 <= #[trigger] b.spec_range(i).0 <= b.spec_range(i).1
        <= b.spec_input_size() by {
        let s = b.boundaries();
        if 0 < i < b.spec_buckets() - 1 {
            assert(s[i - 1] < s[i] || (s[i - 1] == b.spec_input_size() - 1 && s[i]
                == b.spec_input_size() - 1));
        }
    }
}

/// A strictly increasing sequence grows by at least one per step.
proof fn lemma_strict_gap(s: Seq<usize>, j: int, k: int)
    requires
        forall|a: int, b: int| 0 <= a < b < s.len() ==> s[a] < s[b],
        0 <= j <= k < s.len(),
    ensures
        s[k] >= s[j] + (k - j),
    decreases k - j,
{
    if j < k {
        lemma_strict_gap(s, j, k - 1);
        assert(s[k - 1] < s[k]);
    }
}

/// Law: when there are as many bands as spectrum bins and the boundaries are
/// distinct, the mapping is one-to-one — band `i` covers exactly bin `i`, so
/// bucketing averages each bin with itself alone.
pub proof fn lemma_identity_ranges(b: Bucketer)
    requires
        b.well_formed(),
        b.complete(),
        b.spec_buckets() == b.spec_input_size(),
        forall|j: int, k: int|
            0 <= j < k < b.boundaries().len() ==> b.boundaries()[j] < b.boundaries()[k],
    ensures
        forall|i: int|
            0 <= i < b.spec_buckets() ==> #[trigger] b.spec_range(i) == (i, i + 1),
{
    let s = b.boundaries();
    let n = b.spec_input_size() as int;
    assert forall|k: int| 0 <= k < s.len() implies s[k] == k + 1 by {
        lemma_strict_gap(s, 0, k);
        lemma_strict_gap(s, k, s.len() - 1);
        assert(1 <= s[0]);
        assert(s[s.len() - 1] <= n - 1);
    }
}

/// Law: wherever boundaries have not saturated at the top bin, they are
/// strictly increasing; once the final boundary lies below `input_size - 1`,
/// the entire sequence of `buckets - 1` boundaries is strictly increasing,
/// and every band's bin range is nonempty.
pub proof fn lemma_boundaries_strictly_increasing(b: Bucketer)
    requires
        b.well_formed(),
        b.boundaries().len() > 0,
        b.boundaries().last() < b.spec_input_size() - 1,
    ensures
        forall|j: int, k: int|
            0 <= j < k < b.boundaries().len() ==> b.boundaries()[j] < b.boundaries()[k],
        b.complete() ==> forall|i: int|
            0 <= i < b.spec_buckets() ==> #[trigger] b.spec_range(i).0 < b.spec_range(i).1,
{
    let s = b.boundaries();
    let top = b.spec_input_size() - 1;
    assert forall|j: int, k: int| 0 <= j < k < s.len() implies s[j] < s[k] by {
        if s[j] == top && s[k] == top {
            if k < s.len() - 1 {
                assert(s[k] < s.last() || (s[k] == top && s.last() == top));
            }
            assert(s.last() == top);
        }
    }
    if b.complete() {
        assert forall|i: int| 0 <= i < b.spec_buckets() implies #[trigger] b.spec_range(i).0
            < b.spec_range(i).1 by {
            if i == 0 {
                assert(1 <= s[0]);
            } else if i < b.spec_buckets() - 1 {
                assert(s[i - 1] < s[i]);
            } else {
                assert(s[i - 1] <= top);
            }
        }
    }
}

} // verus!
