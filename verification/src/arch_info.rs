use vstd::prelude::*;

use crate::heap::KERNEL_HEAP_SIZE;
use crate::memory_region::Region;
use crate::pmm_stack::PmmStack;
use crate::vas::{empty_entries, nth_page, VirtAddrSpace};

verus! {

/// Four MiB: what one page table maps.
pub const FOUR_MIB: usize = 0x40_0000;

/// What the architecture set-up learns: where the kernel is loaded and
/// where its heap lies.
#[derive(Clone, Copy, Debug)]
pub struct ArchInitInfo {
    pub kernel_region: Region,
    pub heap_region: Region,
}

/// What the kernel learns at boot: the architecture's findings and the
/// available memory regions.
pub struct KernelInfo {
    pub arch: ArchInitInfo,
    pub available_memory_regions: Vec<Region>,
}

/// `x` rounded up to the next 4 MiB boundary.
pub open spec fn four_mib_up(x: int) -> int {
    (x + FOUR_MIB - 1) / (FOUR_MIB as int) * FOUR_MIB
}

impl ArchInitInfo {
    pub fn new() -> (r: ArchInitInfo)
        ensures
            r.kernel_region == (Region { start: 0, end: 0 }),
            r.heap_region == (Region { start: 0, end: 0 }),
    {
        ArchInitInfo { kernel_region: Region { start: 0, end: 0 }, heap_region: Region { start: 0, end: 0 } }
    }
}

impl KernelInfo {
    pub fn new() -> (r: KernelInfo)
        ensures
            r.arch.kernel_region == (Region { start: 0, end: 0 }),
            r.arch.heap_region == (Region { start: 0, end: 0 }),
            r.available_memory_regions@.len() == 0,
    {
        KernelInfo { arch: ArchInitInfo::new(), available_memory_regions: Vec::new() }
    }
}

/// The region that starts at the first 4 MiB boundary at or after
/// `kernel_end` and is `len` bytes long: where the kernel puts its heap,
/// and where it maps the ACPI tables.
pub fn region_after_kernel(kernel_end: usize, len: usize) -> (r: Region)
    requires
        kernel_end + FOUR_MIB + len <= usize::MAX,
    ensures
        r.start == four_mib_up(kernel_end as int),
        r.end == r.start + len,
        r.start % FOUR_MIB == 0,
        kernel_end <= r.start < kernel_end + FOUR_MIB,
{
    let start = (kernel_end + (FOUR_MIB - 1)) / FOUR_MIB * FOUR_MIB;
    assert(kernel_end <= start < kernel_end + FOUR_MIB && start % FOUR_MIB == 0) by (nonlinear_arith)
        requires
            start == (kernel_end + (FOUR_MIB - 1)) / (FOUR_MIB as int) * FOUR_MIB,
            kernel_end >= 0,
    ;
    Region { start, end: start + len }
}

/// The heap region for a kernel that ends at `kernel_end`.
pub fn heap_region(kernel_end: usize) -> (r: Region)
    requires
        kernel_end + FOUR_MIB + KERNEL_HEAP_SIZE <= usize::MAX,
    ensures
        r.start == four_mib_up(kernel_end as int),
        r.end == r.start + KERNEL_HEAP_SIZE,
{
    region_after_kernel(kernel_end, KERNEL_HEAP_SIZE)
}

/// Maps the kernel heap, the 4 MiB slot after the kernel, through a new
/// page table at `table_phys`, to frames popped from the stack of free
/// pages: the first heap page to the frame on top of the stack, and so on.
/// Returns the heap's region.
pub fn map_kernel_heap(vas: &mut VirtAddrSpace, kernel_end: usize, table_phys: u32, stack: &mut PmmStack) -> (r: Region)
    requires
        old(vas).wf(),
        old(stack).wf(),
        kernel_end + 2 * FOUR_MIB <= u32::MAX,
        table_phys % 4096 == 0,
        old(stack).pages@.len() >= KERNEL_HEAP_SIZE / 4096,
        forall|i: int| 0 <= i < old(stack).pages@.len() ==> #[trigger] old(stack).pages@[i] & 0xFFFu32 == 0,
    ensures
        r.start == four_mib_up(kernel_end as int),
        r.end == r.start + KERNEL_HEAP_SIZE,
        final(vas).wf(),
        final(stack).wf(),
        final(stack).pages@ == old(stack).pages@.take(old(stack).pages@.len() - KERNEL_HEAP_SIZE / 4096),
        forall|k: int|
            0 <= k < KERNEL_HEAP_SIZE / 4096 ==> #[trigger] final(vas).translate(nth_page(r.start as u32, k))
                == Some(old(stack).pages@[old(stack).pages@.len() - 1 - k]),
{
    let region = heap_region(kernel_end);
    let pde_idx = region.start / FOUR_MIB;
    proof {
        crate::bits::lemma_page_aligned_u32(table_phys);
    }
    vas.set_pde_addr(pde_idx, empty_entries(), table_phys);
    let start = region.start as u32;
    let end = region.end as u32;
    assert((end - start) / 4096 == KERNEL_HEAP_SIZE / 4096);
    proof {
        assert forall|k: int| 0 <= k < (end - start) / 4096 implies #[trigger] vas.has_table(nth_page(start, k)) by {
            let w = nth_page(start, k);
            assert(w == start + 4096 * k && w / 0x40_0000u32 == pde_idx) by (nonlinear_arith)
                requires
                    w == nth_page(start, k),
                    0 <= k < 1024,
                    start == region.start,
                    region.start % FOUR_MIB == 0,
                    pde_idx == region.start / FOUR_MIB,
                    region.start + FOUR_MIB <= u32::MAX,
            ;
            crate::vas::lemma_pde_index_is_slot(w);
        }
    }
    vas.allocate_pages_from_stack(start, end, stack);
    region
}

} // verus!
