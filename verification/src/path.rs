//! The path model: an ordered sequence of curve-segment lengths.
//!
//! The geometry itself (curve shapes, projection of world-space points) is
//! owned by the host; this crate only needs each segment's arc length and the
//! total, all in tenths of a length unit.

use vstd::prelude::*;

verus! {

/// Shortest total length a path may have (two tenths of a unit): below this
/// the clamping arithmetic could produce an inverted interval.
pub const MIN_PATH_LENGTH: u64 = 2;

/// Longest total length a path may have, chosen so that every offset
/// computation in this crate stays far away from `u64` overflow.
pub const MAX_PATH_LENGTH: u64 = 0x1000_0000_0000_0000;

/// Total length of a sequence of segment lengths.
pub open spec fn total_length(segs: Seq<u64>) -> int
    decreases segs.len(),
{
    if segs.len() == 0 {
        0
    } else {
        total_length(segs.drop_last()) + segs.last()
    }
}

pub proof fn lemma_total_length_nonneg(segs: Seq<u64>)
    ensures
        total_length(segs) >= 0,
    decreases segs.len(),
{
    if segs.len() > 0 {
        lemma_total_length_nonneg(segs.drop_last());
    }
}

/// A total length can also be peeled off at the front.
pub proof fn lemma_total_length_front(segs: Seq<u64>)
    requires
        segs.len() > 0,
    ensures
        total_length(segs) == segs[0] + total_length(segs.skip(1)),
    decreases segs.len(),
{
    if segs.len() == 1 {
        assert(segs.drop_last() =~= Seq::<u64>::empty());
        assert(segs.skip(1) =~= Seq::<u64>::empty());
    } else {
        let d = segs.drop_last();
        lemma_total_length_front(d);
        assert(segs.skip(1).drop_last() =~= d.skip(1));
        assert(segs.skip(1).last() == segs.last());
        assert(total_length(segs.skip(1)) == total_length(segs.skip(1).drop_last())
            + segs.skip(1).last());
    }
}

/// Extending a prefix by one segment adds that segment's length.
pub proof fn lemma_total_length_take_step(segs: Seq<u64>, i: int)
    requires
        0 <= i < segs.len(),
    ensures
        total_length(segs.take(i + 1)) == total_length(segs.take(i)) + segs[i],
{
    assert(segs.take(i + 1).drop_last() =~= segs.take(i));
    assert(segs.take(i + 1).last() == segs[i]);
}

/// A prefix is never longer than the whole.
pub proof fn lemma_total_length_take_le(segs: Seq<u64>, i: int)
    requires
        0 <= i <= segs.len(),
    ensures
        total_length(segs.take(i)) <= total_length(segs),
    decreases segs.len() - i,
{
    if i == segs.len() {
        assert(segs.take(i) =~= segs);
    } else {
        lemma_total_length_take_step(segs, i);
        lemma_total_length_take_le(segs, i + 1);
    }
}

/// An ordered sequence of segment lengths (tenths of a unit) making up one
/// drawn path. Immutable for the lifetime of a selectable entity.
pub struct Path {
    segments: Vec<u64>,
}

impl View for Path {
    type V = Seq<u64>;

    closed spec fn view(&self) -> Seq<u64> {
        self.segments@
    }
}

impl Path {
    /// Total arc length of the path.
    pub open spec fn total(self) -> int {
        total_length(self@)
    }

    pub open spec fn well_formed(self) -> bool {
        &&& (forall|i: int| 0 <= i < self@.len() ==> #[trigger] self@[i] >= 1)
        &&& MIN_PATH_LENGTH <= self.total() <= MAX_PATH_LENGTH
    }

    /// Builds a path from its segment lengths. Rejects zero-length segments
    /// and totals outside `MIN_PATH_LENGTH ..= MAX_PATH_LENGTH`.
    pub fn new(segments: Vec<u64>) -> (r: Option<Path>)
        ensures
            r is Some <==> ((forall|i: int|
                0 <= i < segments@.len() ==> #[trigger] segments@[i] >= 1)
                && MIN_PATH_LENGTH <= total_length(segments@) <= MAX_PATH_LENGTH),
            r matches Some(p) ==> p@ == segments@ && p.well_formed(),
    {
        let n = segments.len();
        let mut total: u64 = 0;
        let mut i: usize = 0;
        while i < n
            invariant
                i <= n,
                n == segments@.len(),
                forall|j: int| 0 <= j < i ==> #[trigger] segments@[j] >= 1,
                total == total_length(segments@.take(i as int)),
                total <= MAX_PATH_LENGTH,
            decreases n - i,
        {
            let seg = segments[i];
            proof {
                lemma_total_length_take_step(segments@, i as int);
                lemma_total_length_take_le(segments@, i as int + 1);
            }
            if seg == 0 {
                return None;
            }
            if seg > MAX_PATH_LENGTH - total {
                return None;
            }
            total = total + seg;
            i = i + 1;
        }
        proof {
            assert(segments@.take(n as int) =~= segments@);
        }
        if total < MIN_PATH_LENGTH {
            return None;
        }
        Some(Path { segments })
    }

    /// Total arc length of the path: the sum of its segment lengths.
    pub fn length(&self) -> (r: u64)
        requires
            self.well_formed(),
        ensures
            r == self.total(),
    {
        let n = self.segments.len();
        let mut total: u64 = 0;
        let mut i: usize = 0;
        while i < n
            invariant
                i <= n,
                n == self@.len(),
                self.well_formed(),
                total == total_length(self@.take(i as int)),
                total <= MAX_PATH_LENGTH,
            decreases n - i,
        {
            proof {
                lemma_total_length_take_step(self@, i as int);
                lemma_total_length_take_le(self@, i as int + 1);
            }
            total = total + self.segments[i];
            i = i + 1;
        }
        proof {
            assert(self@.take(n as int) =~= self@);
        }
        total
    }

    /// Number of segments.
    pub fn segment_count(&self) -> (r: usize)
        ensures
            r == self@.len(),
    {
        self.segments.len()
    }

    /// Length of the `i`-th segment.
    pub fn segment(&self, i: usize) -> (r: u64)
        requires
            i < self@.len(),
        ensures
            r == self@[i as int],
    {
        self.segments[i]
    }
}

} // verus!
