pub mod hpet;
pub mod sdt;

use vstd::prelude::*;

use crate::arch_info::{four_mib_up, region_after_kernel, FOUR_MIB};
use crate::memory_region::Region;
use crate::vas::{empty_entries, nth_page, VirtAddrSpace};

verus! {

/// The generic address structure of ACPI tables.
#[derive(Clone, Copy, Debug)]
pub struct AcpiAddr {
    pub addr_space_id: u8,
    pub register_bit_width: u8,
    pub register_bit_offset: u8,
    pub reserved: u8,
    pub address: u64,
}

/// Maps the pages of the HPET's registers, `hpet_phys`, at the start of the
/// 4 MiB slot that follows the kernel, through a new page table at
/// `table_phys`, and returns that slot.  The registers must fill whole
/// pages within one 4 MiB slot of physical memory.
pub fn map_hpet(vas: &mut VirtAddrSpace, kernel_end: usize, hpet_phys: Region, table_phys: u32) -> (r: Region)
    requires
        old(vas).wf(),
        hpet_phys.start < hpet_phys.end,
        hpet_phys.start % 4096 == 0,
        hpet_phys.end % 4096 == 0,
        hpet_phys.start / 4096 / 1024 == (hpet_phys.end / 4096 - 1) / 1024,
        hpet_phys.end <= u32::MAX,
        kernel_end + 2 * FOUR_MIB <= u32::MAX,
        table_phys % 4096 == 0,
    ensures
        final(vas).wf(),
        r.start == four_mib_up(kernel_end as int),
        r.end == r.start + FOUR_MIB,
        forall|k: int|
            0 <= k < (hpet_phys.end - hpet_phys.start) / 4096 ==> #[trigger] final(vas).translate(
                nth_page(r.start as u32, k),
            ) == Some(nth_page(hpet_phys.start as u32, k)),
{
    let region = region_after_kernel(kernel_end, FOUR_MIB);
    let pde_idx = region.start / FOUR_MIB;
    proof {
        crate::bits::lemma_page_aligned_u32(table_phys);
    }
    vas.set_pde_addr(pde_idx, empty_entries(), table_phys);
    let start_page = hpet_phys.start / 4096;
    let end_page = (hpet_phys.end - 1) / 4096 + 1;
    let n = end_page - start_page;
    assert(n == (hpet_phys.end - hpet_phys.start) / 4096 && n <= 1024) by (nonlinear_arith)
        requires
            start_page == hpet_phys.start / 4096,
            end_page == (hpet_phys.end - 1) / 4096 + 1,
            n == end_page - start_page,
            hpet_phys.start < hpet_phys.end,
            hpet_phys.start % 4096 == 0,
            hpet_phys.end % 4096 == 0,
            hpet_phys.start / 4096 / 1024 == (hpet_phys.end / 4096 - 1) / 1024,
    ;
    let virt = region.start as u32;
    proof {
        assert forall|k: int| 0 <= k < n implies #[trigger] vas.has_table(nth_page(virt, k)) by {
            let w = nth_page(virt, k);
            assert(w == virt + 4096 * k && w / 0x40_0000u32 == pde_idx) by (nonlinear_arith)
                requires
                    w == nth_page(virt, k),
                    0 <= k < n,
                    n <= 1024,
                    virt == region.start,
                    region.start % FOUR_MIB == 0,
                    pde_idx == region.start / FOUR_MIB,
                    region.start + FOUR_MIB <= u32::MAX,
            ;
            crate::vas::lemma_pde_index_is_slot(w);
        }
    }
    vas.map_range(virt, hpet_phys.start as u32, n as u32);
    region
}

} // verus!
