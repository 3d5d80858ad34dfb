use vstd::prelude::*;

verus! {

/// A half-open range of addresses `start..end`.
#[derive(Clone, Copy, Debug)]
pub struct Region {
    pub start: usize,
    pub end: usize,
}

/// How a region lies relative to another one.
#[derive(Clone, Copy, Debug, PartialEq, Eq, Structural)]
pub enum OverlappingWith {
    Covers,
    StartsIn,
    IsIn,
    EndsIn,
    NoOverlap,
}

/// The classification computed by [`Region::overlapping_with`], stated over
/// the four bounds.
pub open spec fn overlap_kind(s: Region, r: Region) -> OverlappingWith {
    if s.start < r.start && s.end > r.end {
        OverlappingWith::Covers
    } else if s.start >= r.start && s.end > r.end && s.start < r.end {
        OverlappingWith::StartsIn
    } else if s.start >= r.start && s.end <= r.end {
        OverlappingWith::IsIn
    } else if s.start < r.start && s.end >= r.start && s.end <= r.end {
        OverlappingWith::EndsIn
    } else {
        OverlappingWith::NoOverlap
    }
}

impl Region {
    /// A region is well formed when it does not end before it starts.
    pub open spec fn wf(self) -> bool {
        self.start <= self.end
    }

    pub fn from_start_len(start: usize, len: usize) -> (r: Region)
        requires
            start + len <= usize::MAX,
        ensures
            r.start == start,
            r.end == start + len,
    {
        Region { start, end: start + len }
    }

    pub fn size(&self) -> (r: usize)
        requires
            self.wf(),
        ensures
            r == self.end - self.start,
    {
        self.end - self.start
    }

    pub fn overlapping_with(&self, region: Region) -> (r: OverlappingWith)
        ensures
            r == overlap_kind(*self, region),
    {
        if self.start < region.start && self.end > region.end {
            return OverlappingWith::Covers;
        }
        if self.start >= region.start {
            if self.end > region.end && self.start < region.end {
                return OverlappingWith::StartsIn;
            }
            if self.end <= region.end {
                return OverlappingWith::IsIn;
            }
        } else if self.end >= region.start && self.end <= region.end {
            return OverlappingWith::EndsIn;
        }
        OverlappingWith::NoOverlap
    }

    /// The two regions share an address.
    pub open spec fn spec_conflicts_with(self, other: Region) -> bool {
        self.start < other.end && other.start < self.end
    }

    pub fn conflicts_with(&self, other: &Region) -> (r: bool)
        ensures
            r == self.spec_conflicts_with(*other),
    {
        self.start < other.end && other.start < self.end
    }

    /// The region lies within `other`.
    pub open spec fn spec_is_in(self, other: Region) -> bool {
        other.start <= self.start && self.end <= other.end
    }

    pub fn is_in(&self, other: &Region) -> (r: bool)
        ensures
            r == self.spec_is_in(*other),
    {
        other.start <= self.start && self.end <= other.end
    }
}

/// A region classified as lying apart from another shares no address with
/// it.
pub proof fn lemma_no_overlap_means_disjoint(s: Region, r: Region, a: int)
    requires
        s.wf(),
        r.wf(),
        overlap_kind(s, r) == OverlappingWith::NoOverlap,
    ensures
        !(s.start <= a < s.end && r.start <= a < r.end),
{
}

/// A region classified as lying inside another is contained in it.
pub proof fn lemma_is_in_means_contained(s: Region, r: Region)
    requires
        overlap_kind(s, r) == OverlappingWith::IsIn,
    ensures
        r.start <= s.start,
        s.end <= r.end,
{
}

/// A non-empty region always lies inside itself.
pub proof fn lemma_region_is_in_itself(s: Region)
    requires
        s.wf(),
    ensures
        overlap_kind(s, s) == OverlappingWith::IsIn,
{
}

} // verus!
