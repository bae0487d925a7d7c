//! Containment and overlap of half-open ranges.

use std::ops::Range;
use vstd::prelude::*;

verus! {

/// Whether the half-open range `inner` lies within `outer`, judged by its ends alone.
pub open spec fn range_contains(outer: Range<usize>, inner: Range<usize>) -> bool {
    outer.start <= inner.start && inner.end <= outer.end
}

/// Whether the half-open ranges `a` and `b` reach into one another.
pub open spec fn ranges_overlap(a: Range<usize>, b: Range<usize>) -> bool {
    a.start < b.end && b.start < a.end
}

/// Range tests used to decode register accesses.
pub trait ContainsRange {
    /// The range that the implementor stands for.
    spec fn as_range(&self) -> Range<usize>;

    fn contains_range(&self, r: &Range<usize>) -> (ret: bool)
        ensures
            ret == range_contains(self.as_range(), *r),
    ;

    fn overlaps_range(&self, r: &Range<usize>) -> (ret: bool)
        ensures
            ret == ranges_overlap(self.as_range(), *r),
    ;
}

impl ContainsRange for Range<usize> {
    open spec fn as_range(&self) -> Range<usize> {
        *self
    }

    fn contains_range(&self, r: &Range<usize>) -> (ret: bool) {
        r.start >= self.start && r.end <= self.end
    }

    /// Half-open ranges `[a, b)` and `[c, d)` overlap iff `a < d && c < b`. Comparing with `<=`
    /// would count *adjacent* ranges as overlapping, and a write to the dword just below the
    /// shared-memory header would then be taken for a write of the header.
    fn overlaps_range(&self, r: &Range<usize>) -> (ret: bool) {
        r.end > self.start && self.end > r.start
    }
}

/// Two non-empty ranges overlap exactly when some position lies in both of them.
pub proof fn overlap_is_a_shared_position(a: Range<usize>, b: Range<usize>)
    requires
        a.start < a.end,
        b.start < b.end,
    ensures
        ranges_overlap(a, b) <==> exists|x: usize| #[trigger]
            position_in(a, x) && position_in(b, x),
{
    if ranges_overlap(a, b) {
        let x = if a.start < b.start {
            b.start
        } else {
            a.start
        };
        assert(position_in(a, x) && position_in(b, x));
    }
}

/// Whether position `x` lies in the half-open range `r`.
pub open spec fn position_in(r: Range<usize>, x: usize) -> bool {
    r.start <= x < r.end
}

/// A non-empty range is contained in another exactly when each of its positions is.
pub proof fn containment_is_pointwise(outer: Range<usize>, inner: Range<usize>)
    requires
        inner.start < inner.end,
    ensures
        range_contains(outer, inner) <==> forall|x: usize| #[trigger]
            position_in(inner, x) ==> position_in(outer, x),
{
    if !range_contains(outer, inner) {
        if inner.start < outer.start {
            assert(position_in(inner, inner.start));
        } else {
            assert(position_in(inner, (inner.end - 1) as usize));
        }
    }
}

/// Adjacent ranges never overlap, whichever of the two comes first.
pub proof fn adjacent_ranges_do_not_overlap(a: Range<usize>, b: Range<usize>)
    requires
        a.end == b.start,
    ensures
        !ranges_overlap(a, b),
        !ranges_overlap(b, a),
{
}

} // verus!
