use vstd::prelude::*;

use crate::bits::lemma_align_down_le;
use crate::memory_region::{overlap_kind, OverlappingWith, Region};

verus! {

/// The stack of free physical pages.  `pages` lists the free pages from the
/// bottom of the stack to its top; `capacity` is how many it can hold.
pub struct PmmStack {
    pub pages: Vec<u32>,
    pub capacity: usize,
}

/// The part of `r` that the kernel region `k` leaves free, as bounds taken
/// from `r` and `k`; `None` when `r` lies inside the kernel.
pub open spec fn clip_to_free(r: Region, k: Region) -> Option<(usize, usize)> {
    match overlap_kind(r, k) {
        OverlappingWith::StartsIn => Some((k.end, r.end)),
        OverlappingWith::IsIn => None,
        OverlappingWith::EndsIn => Some((r.start, k.start)),
        _ => Some((r.start, r.end)),
    }
}

/// The page addresses `start, start + 4096, ...` below `end`.
pub open spec fn pages_between(start: int, end: int) -> Seq<u32> {
    if start >= end {
        Seq::empty()
    } else {
        Seq::new(((end - start + 4095) / 4096) as nat, |i: int| (start + 4096 * i) as u32)
    }
}

/// The whole pages inside `start..end`: the start is rounded up and the end
/// down to a page boundary.
pub open spec fn whole_pages(start: usize, end: usize) -> Seq<u32> {
    pages_between(((start + 0xFFFusize) as usize & !0xFFFusize) as int, (end & !0xFFFusize) as int)
}

/// The free pages of one available memory region.
pub open spec fn region_free_pages(r: Region, k: Region) -> Seq<u32> {
    match clip_to_free(r, k) {
        Some((s, e)) => whole_pages(s, e),
        None => Seq::empty(),
    }
}

/// The number of regions before the first empty (all-zero) one.
pub open spec fn used_regions(regions: Seq<Region>) -> int
    decreases regions.len(),
{
    if regions.len() == 0 || (regions[0].start == 0 && regions[0].end == 0) {
        0
    } else {
        1 + used_regions(regions.drop_first())
    }
}

/// The free pages of the first `n` regions, in order.
pub open spec fn free_pages(regions: Seq<Region>, k: Region, n: int) -> Seq<u32>
    decreases n,
{
    if n <= 0 {
        Seq::empty()
    } else {
        free_pages(regions, k, n - 1) + region_free_pages(regions[n - 1], k)
    }
}

/// Regions that the stack can be filled from: none of them covers the
/// kernel, and their bounds stay clear of the top of the address range.
pub open spec fn fillable(regions: Seq<Region>, k: Region) -> bool {
    forall|i: int|
        0 <= i < regions.len() ==> {
            &&& overlap_kind(#[trigger] regions[i], k) != OverlappingWith::Covers
            &&& regions[i].start <= 0xFFFF_F000
            &&& regions[i].end <= 0xFFFF_F000
        }
}

impl PmmStack {
    pub open spec fn wf(&self) -> bool {
        self.pages@.len() <= self.capacity
    }

    /// An empty stack with room for `capacity` pages.
    pub fn new(capacity: usize) -> (r: PmmStack)
        ensures
            r.wf(),
            r.capacity == capacity,
            r.pages@ == Seq::<u32>::empty(),
    {
        PmmStack { pages: Vec::new(), capacity }
    }

    /// Pushes a free page; there must be room for it.
    pub fn push_page(&mut self, addr: u32)
        requires
            old(self).wf(),
            old(self).pages@.len() < old(self).capacity,
        ensures
            final(self).wf(),
            final(self).capacity == old(self).capacity,
            final(self).pages@ == old(self).pages@.push(addr),
    {
        self.pages.push(addr);
    }

    /// Pops the most recently pushed free page; the stack must not be empty.
    pub fn pop_page(&mut self) -> (r: u32)
        requires
            old(self).wf(),
            old(self).pages@.len() > 0,
        ensures
            final(self).wf(),
            final(self).capacity == old(self).capacity,
            r == old(self).pages@.last(),
            final(self).pages@ == old(self).pages@.drop_last(),
    {
        self.pages.pop().unwrap()
    }

    /// Pushes every whole page of the available memory regions (up to the
    /// first empty one) that the kernel region does not occupy.
    pub fn fill(&mut self, regions: &[Region], kernel_region: Region)
        requires
            old(self).wf(),
            fillable(regions@, kernel_region),
            old(self).pages@.len() + free_pages(regions@, kernel_region, used_regions(regions@)).len()
                <= old(self).capacity,
        ensures
            final(self).wf(),
            final(self).capacity == old(self).capacity,
            final(self).pages@ == old(self).pages@ + free_pages(
                regions@,
                kernel_region,
                used_regions(regions@),
            ),
    {
        let ghost base = self.pages@;
        let mut i: usize = 0;
        proof {
            lemma_used_regions_bound(regions@);
        }
        while i < regions.len() && !(regions[i].start == 0 && regions[i].end == 0)
            invariant
                i <= regions@.len(),
                i <= used_regions(regions@),
                used_regions(regions@) <= regions@.len(),
                fillable(regions@, kernel_region),
                self.capacity == old(self).capacity,
                base.len() + free_pages(regions@, kernel_region, used_regions(regions@)).len()
                    <= self.capacity,
                self.pages@ == base + free_pages(regions@, kernel_region, i as int),
            decreases regions@.len() - i,
        {
            let region = regions[i];
            proof {
                lemma_used_regions_continue(regions@, i as int);
                lemma_free_pages_grow(regions@, kernel_region, i as int + 1, used_regions(regions@));
            }
            let (start, end) = match region.overlapping_with(kernel_region) {
                OverlappingWith::StartsIn => (kernel_region.end, region.end),
                OverlappingWith::IsIn => {
                    i = i + 1;
                    continue;
                },
                OverlappingWith::EndsIn => (region.start, kernel_region.start),
                _ => (region.start, region.end),
            };
            let ghost before = self.pages@;
            assert(start <= 0xFFFF_F000 && end <= 0xFFFF_F000);
            let s = (start + 0xFFF) & !0xFFFusize;
            let e = end & !0xFFFusize;
            proof {
                lemma_align_down_le(end);
            }
            if s < e {
                let ghost target = pages_between(s as int, e as int);
                let mut page = s;
                let mut k: usize = 0;
                while page < e
                    invariant
                        s < e,
                        e <= 0xFFFF_F000,
                        page == s + 4096 * k,
                        page <= e + 4095,
                        target == pages_between(s as int, e as int),
                        self.capacity == old(self).capacity,
                        self.pages@ == before + target.take(k as int),
                        k <= target.len(),
                        before.len() + target.len() <= self.capacity,
                    decreases (e as int) - (page as int) + 4096,
                {
                    assert(target[k as int] == page as u32);
                    self.pages.push(page as u32);
                    assert(target.take(k as int + 1) =~= target.take(k as int).push(page as u32));
                    page = page + 4096;
                    k = k + 1;
                    assert(k <= target.len()) by (nonlinear_arith)
                        requires
                            page == s + 4096 * k,
                            page - 4096 < e,
                            target.len() == (e - s + 4095) / 4096,
                            s < e,
                    ;
                }
                assert(k == target.len()) by (nonlinear_arith)
                    requires
                        page == s + 4096 * k,
                        page >= e,
                        k <= target.len(),
                        target.len() == (e - s + 4095) / 4096,
                        s < e,
                ;
                assert(target.take(k as int) =~= target);
            }
            i = i + 1;
        }
        proof {
            if i < regions@.len() {
                lemma_used_regions_stop(regions@, i as int);
            }
            lemma_free_pages_grow(regions@, kernel_region, i as int, used_regions(regions@));
        }
    }
}

proof fn lemma_used_regions_bound(regions: Seq<Region>)
    ensures
        0 <= used_regions(regions) <= regions.len(),
    decreases regions.len(),
{
    if regions.len() > 0 {
        lemma_used_regions_bound(regions.drop_first());
    }
}

/// Up to the first empty region, each region is counted.
proof fn lemma_used_regions_continue(regions: Seq<Region>, i: int)
    requires
        0 <= i < regions.len(),
        i <= used_regions(regions),
        !(regions[i].start == 0 && regions[i].end == 0),
    ensures
        i + 1 <= used_regions(regions),
    decreases i,
{
    lemma_used_regions_bound(regions.drop_first());
    if i > 0 {
        assert(regions.drop_first()[i - 1] == regions[i]);
        lemma_used_regions_continue(regions.drop_first(), i - 1);
    }
}

/// Counting stops at the first empty region.
proof fn lemma_used_regions_stop(regions: Seq<Region>, i: int)
    requires
        0 <= i < regions.len(),
        i <= used_regions(regions),
        regions[i].start == 0 && regions[i].end == 0,
    ensures
        used_regions(regions) == i,
    decreases i,
{
    if i > 0 {
        assert(regions.drop_first()[i - 1] == regions[i]);
        lemma_used_regions_stop(regions.drop_first(), i - 1);
    }
}

/// The free pages of a prefix are no more than those of a longer prefix.
proof fn lemma_free_pages_grow(regions: Seq<Region>, k: Region, a: int, b: int)
    requires
        0 <= a <= b,
    ensures
        free_pages(regions, k, a).len() <= free_pages(regions, k, b).len(),
    decreases b - a,
{
    if a < b {
        lemma_free_pages_grow(regions, k, a, b - 1);
    }
}

/// A page popped right after it was pushed is that page, and the stack is
/// as it was before the push.
pub proof fn lemma_push_then_pop(before: PmmStack, mid: PmmStack, after: PmmStack, addr: u32, popped: u32)
    requires
        mid.pages@ == before.pages@.push(addr),
        popped == mid.pages@.last(),
        after.pages@ == mid.pages@.drop_last(),
    ensures
        popped == addr,
        after.pages@ == before.pages@,
{
    assert(before.pages@.push(addr).drop_last() =~= before.pages@);
}

} // verus!
