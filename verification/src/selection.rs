//! The selection-range algorithm: given raw arc-length offsets for the two
//! ends of a drag, snap them to the path's ends and to segment boundaries,
//! then re-clamp so that the published interval keeps a minimum width and
//! stays inside the end margins.
//!
//! All offsets are in tenths of a length unit.

use vstd::math::{max, min};
use vstd::prelude::*;

use crate::path::{total_length, lemma_total_length_front, lemma_total_length_nonneg, Path};

verus! {

/// Emitted intervals keep this distance (0.1 units) from both path ends.
pub const END_MARGIN: u64 = 1;

/// Minimum width (1.5 units) of an emitted interval, as far as the margins
/// allow.
pub const MIN_SELECTION_WIDTH: u64 = 15;

/// Half-width (1.5 units) of the interval emitted when a drag starts.
pub const INITIAL_HALF_WIDTH: u64 = 15;

/// A drag end closer than this (10 units) to a path end snaps to that end.
pub const END_SNAP_DISTANCE: u64 = 100;

/// A drag end closer than this (5 units) to a segment boundary snaps to it.
pub const BOUNDARY_SNAP_DISTANCE: u64 = 50;

/// The interval emitted when a drag starts at offset `o`: a symmetric window
/// around `o`, clamped to the end margins.
pub open spec fn initial_interval(o: int, len: int) -> (int, int) {
    (
        max(END_MARGIN as int, o - INITIAL_HALF_WIDTH),
        min(len - END_MARGIN, o + INITIAL_HALF_WIDTH),
    )
}

/// Snapping of a drag's two ends to the two ends of the path.
pub open spec fn end_snapped(s: int, e: int, len: int) -> (int, int) {
    (
        if s < END_SNAP_DISTANCE { 0 } else { s },
        if e > len - END_SNAP_DISTANCE { len } else { e },
    )
}

/// Snapping of a drag's two ends to segment boundaries, walking the segments
/// in path order with `offset` the cumulative length before the current
/// segment. The selection start is compared against the boundary before each
/// segment, the selection end against the boundary after it.
pub open spec fn boundary_snapped(segs: Seq<u64>, offset: int, s: int, e: int) -> (int, int)
    decreases segs.len(),
{
    if segs.len() == 0 {
        (s, e)
    } else {
        let next = offset + segs[0];
        let s1 = if offset - BOUNDARY_SNAP_DISTANCE < s < offset + BOUNDARY_SNAP_DISTANCE {
            offset
        } else {
            s
        };
        let e1 = if next - BOUNDARY_SNAP_DISTANCE < e < next + BOUNDARY_SNAP_DISTANCE {
            next
        } else {
            e
        };
        boundary_snapped(segs.skip(1), next, s1, e1)
    }
}

/// The final re-clamp: force the minimum width back in, then keep the
/// interval inside the end margins.
pub open spec fn clamped_interval(s: int, e: int, len: int) -> (int, int) {
    (
        max(min(s, e - MIN_SELECTION_WIDTH), END_MARGIN as int),
        min(max(e, s + MIN_SELECTION_WIDTH), len - END_MARGIN),
    )
}

/// The two ends of a drag after both snapping stages, before the re-clamp:
/// ordered, snapped to path ends, then snapped to segment boundaries.
pub open spec fn snapped_ends(segs: Seq<u64>, a: int, b: int) -> (int, int) {
    let len = total_length(segs);
    let s0 = min(a, b);
    let e0 = max(a, b);
    let (s1, e1) = end_snapped(s0, e0, len);
    boundary_snapped(segs, 0, s1, e1)
}

/// The interval emitted for a drag update whose two ends project to raw
/// offsets `a` and `b`: order them, snap to path ends, snap to segment
/// boundaries, then re-clamp.
pub open spec fn updated_interval(segs: Seq<u64>, a: int, b: int) -> (int, int) {
    let (s2, e2) = snapped_ends(segs, a, b);
    clamped_interval(s2, e2, total_length(segs))
}

/// Both ends stay within `[0, hi]` while snapping to boundaries, provided
/// every boundary does too.
pub proof fn lemma_boundary_snapped_in_range(segs: Seq<u64>, offset: int, s: int, e: int, hi: int)
    requires
        0 <= s <= hi,
        0 <= e <= hi,
        0 <= offset,
        offset + total_length(segs) <= hi,
    ensures
        0 <= boundary_snapped(segs, offset, s, e).0 <= hi,
        0 <= boundary_snapped(segs, offset, s, e).1 <= hi,
    decreases segs.len(),
{
    if segs.len() > 0 {
        lemma_total_length_front(segs);
        lemma_total_length_nonneg(segs.skip(1));
        let next = offset + segs[0];
        let s1 = if offset - BOUNDARY_SNAP_DISTANCE < s < offset + BOUNDARY_SNAP_DISTANCE {
            offset
        } else {
            s
        };
        let e1 = if next - BOUNDARY_SNAP_DISTANCE < e < next + BOUNDARY_SNAP_DISTANCE {
            next
        } else {
            e
        };
        lemma_boundary_snapped_in_range(segs.skip(1), next, s1, e1, hi);
    }
}

/// On a path long enough for both margins and the minimum width, the
/// interval emitted when a drag starts is non-degenerate and in bounds: it
/// keeps the end margins, is at least fourteen tenths wide, and is a full
/// fifteen tenths wide unless the hit offset sits on a path end itself.
pub proof fn lemma_initial_interval_invariant(o: int, len: int)
    requires
        32 <= len,
        0 <= o <= len,
    ensures
        ({
            let (s, e) = initial_interval(o, len);
            &&& END_MARGIN <= s < e <= len - END_MARGIN
            &&& e - s >= MIN_SELECTION_WIDTH - 1
            &&& (END_MARGIN <= o <= len - END_MARGIN ==> e - s >= MIN_SELECTION_WIDTH)
        }),
{
}

/// On a path long enough for both margins and the minimum width, the
/// interval emitted for a drag update is non-degenerate and in bounds, for
/// every pair of projected offsets: it keeps the end margins and is at least
/// fourteen tenths wide.
pub proof fn lemma_updated_interval_in_bounds(segs: Seq<u64>, a: int, b: int)
    requires
        32 <= total_length(segs),
        0 <= a <= total_length(segs),
        0 <= b <= total_length(segs),
    ensures
        ({
            let (s, e) = updated_interval(segs, a, b);
            &&& END_MARGIN <= s < e <= total_length(segs) - END_MARGIN
            &&& e - s >= MIN_SELECTION_WIDTH - 1
        }),
{
    let len = total_length(segs);
    let s0 = min(a, b);
    let e0 = max(a, b);
    let (s1, e1) = end_snapped(s0, e0, len);
    lemma_boundary_snapped_in_range(segs, 0, s1, e1, len);
}

/// The emitted update interval keeps the full minimum width whenever the
/// snapped drag ends do not hug a path end closer than the margins allow.
pub proof fn lemma_updated_interval_min_width(segs: Seq<u64>, a: int, b: int)
    requires
        32 <= total_length(segs),
        0 <= a <= total_length(segs),
        0 <= b <= total_length(segs),
        ({
            let (s2, e2) = snapped_ends(segs, a, b);
            let len = total_length(segs);
            &&& !(s2 == 0 && e2 <= MIN_SELECTION_WIDTH)
            &&& !(e2 == len && s2 >= len - MIN_SELECTION_WIDTH)
        }),
    ensures
        ({
            let (s, e) = updated_interval(segs, a, b);
            e - s >= MIN_SELECTION_WIDTH
        }),
{
    let len = total_length(segs);
    let s0 = min(a, b);
    let e0 = max(a, b);
    let (s1, e1) = end_snapped(s0, e0, len);
    lemma_boundary_snapped_in_range(segs, 0, s1, e1, len);
}

/// On a path shorter than the two margins plus the minimum width, every
/// emitted interval collapses to the margins themselves: it is exactly
/// `[END_MARGIN, len - END_MARGIN]`, whatever the drag did. Its two ends
/// coincide when the path has the minimum length of two tenths.
pub proof fn lemma_short_path_initial_interval(o: int, len: int)
    requires
        2 <= len <= 16,
        0 <= o <= len,
    ensures
        initial_interval(o, len) == (END_MARGIN as int, len - END_MARGIN),
{
}

/// The update counterpart of `lemma_short_path_initial_interval`: on a path
/// shorter than the two margins plus the minimum width, a drag update emits
/// exactly `[END_MARGIN, len - END_MARGIN]`, whatever the raw offsets were.
pub proof fn lemma_short_path_updated_interval(segs: Seq<u64>, a: int, b: int)
    requires
        2 <= total_length(segs) <= 16,
        0 <= a <= total_length(segs),
        0 <= b <= total_length(segs),
    ensures
        updated_interval(segs, a, b) == (END_MARGIN as int, total_length(segs) - END_MARGIN),
{
    let len = total_length(segs);
    let s0 = min(a, b);
    let e0 = max(a, b);
    let (s1, e1) = end_snapped(s0, e0, len);
    lemma_boundary_snapped_in_range(segs, 0, s1, e1, len);
}

impl Path {
    /// Snaps the two ends of a drag to nearby segment boundaries, walking the
    /// segments in path order.
    pub fn snap_to_boundaries(&self, start: u64, end: u64) -> (r: (u64, u64))
        requires
            self.well_formed(),
            start <= self.total(),
            end <= self.total(),
        ensures
            r.0 == boundary_snapped(self@, 0, start as int, end as int).0,
            r.1 == boundary_snapped(self@, 0, start as int, end as int).1,
            r.0 <= self.total(),
            r.1 <= self.total(),
    {
        let ghost total = self.total();
        let n = self.segment_count();
        let mut s = start;
        let mut e = end;
        let mut offset: u64 = 0;
        let mut i: usize = 0;
        proof {
            assert(self@.skip(0) =~= self@);
        }
        while i < n
            invariant
                i <= n,
                n == self@.len(),
                self.well_formed(),
                total == self.total(),
                s <= total,
                e <= total,
                offset + total_length(self@.skip(i as int)) == total,
                offset <= total,
                boundary_snapped(self@.skip(i as int), offset as int, s as int, e as int)
                    == boundary_snapped(self@, 0, start as int, end as int),
            decreases n - i,
        {
            let ghost rest = self@.skip(i as int);
            proof {
                lemma_total_length_front(rest);
                lemma_total_length_nonneg(rest.skip(1));
                assert(rest.skip(1) =~= self@.skip(i as int + 1));
                assert(rest[0] == self@[i as int]);
            }
            let seg = self.segment(i);
            let next = offset + seg;
            if s + BOUNDARY_SNAP_DISTANCE > offset && s < offset + BOUNDARY_SNAP_DISTANCE {
                s = offset;
            }
            if e + BOUNDARY_SNAP_DISTANCE > next && e < next + BOUNDARY_SNAP_DISTANCE {
                e = next;
            }
            offset = next;
            i = i + 1;
        }
        proof {
            assert(self@.skip(n as int) =~= Seq::<u64>::empty());
        }
        (s, e)
    }

    /// The interval emitted when a drag starts at offset `o`.
    pub fn compute_initial_interval(&self, o: u64) -> (r: (u64, u64))
        requires
            self.well_formed(),
            o <= self.total(),
        ensures
            r.0 == initial_interval(o as int, self.total()).0,
            r.1 == initial_interval(o as int, self.total()).1,
    {
        let len = self.length();
        let start = if o > END_MARGIN + INITIAL_HALF_WIDTH {
            o - INITIAL_HALF_WIDTH
        } else {
            END_MARGIN
        };
        let high = len - END_MARGIN;
        let end = if o + INITIAL_HALF_WIDTH < high {
            o + INITIAL_HALF_WIDTH
        } else {
            high
        };
        (start, end)
    }

    /// The interval emitted for a drag update whose two ends project to raw
    /// offsets `a` and `b`.
    pub fn compute_updated_interval(&self, a: u64, b: u64) -> (r: (u64, u64))
        requires
            self.well_formed(),
            a <= self.total(),
            b <= self.total(),
        ensures
            r.0 == updated_interval(self@, a as int, b as int).0,
            r.1 == updated_interval(self@, a as int, b as int).1,
    {
        let len = self.length();
        let s0 = if a <= b { a } else { b };
        let e0 = if a <= b { b } else { a };
        let s1 = if s0 < END_SNAP_DISTANCE { 0 } else { s0 };
        let e1 = if e0 + END_SNAP_DISTANCE > len { len } else { e0 };
        let (s2, e2) = self.snap_to_boundaries(s1, e1);
        let start = if e2 <= MIN_SELECTION_WIDTH {
            END_MARGIN
        } else {
            let m = if s2 <= e2 - MIN_SELECTION_WIDTH { s2 } else { e2 - MIN_SELECTION_WIDTH };
            if m > END_MARGIN { m } else { END_MARGIN }
        };
        let grown = if e2 >= s2 + MIN_SELECTION_WIDTH { e2 } else { s2 + MIN_SELECTION_WIDTH };
        let high = len - END_MARGIN;
        let end = if grown < high { grown } else { high };
        (start, end)
    }
}

} // verus!
