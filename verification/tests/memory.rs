use lib::memory_region::Region;
use lib::pmm_stack::PmmStack;
use lib::port::PortBuilder;
use lib::stack::{PopErr, PushErr, Stack};
use lib::vas::{empty_entries, Entry, VirtAddrSpace};

/// An address space with one page table, for the 4 MiB at `base`.
fn space_with_table(base: u32) -> VirtAddrSpace {
    let mut vas = VirtAddrSpace::empty(0x0010_0000, false);
    let table = empty_entries();
    assert_eq!(vas.set_pde_addr((base >> 22) as usize, table, 0x0020_0000), 0x0020_0000);
    vas
}

#[test]
fn a_mapped_page_is_translated() {
    let mut vas = space_with_table(0x0800_0000);
    assert!(vas.pgtbl_exists(0x0800_0000));
    assert!(!vas.pgtbl_exists(0x0C00_0000));
    assert_eq!(vas.virt_to_phys(0x0800_1000), None);
    vas.map_page(0x0800_1000, 0x0030_0000);
    assert_eq!(vas.virt_to_phys(0x0800_1000), Some(0x0030_0000));
    assert_eq!(vas.virt_to_phys(0x0800_2000), None);
    let entry: Entry = vas.pgtbl_entry(0x0800_1000);
    assert_eq!(entry.addr(), 0x0030_0000);
}

#[test]
fn guard_pages_hide_and_restore_a_mapping() {
    let mut vas = space_with_table(0x0800_0000);
    vas.map_page(0x0800_3000, 0x0040_0000);
    vas.place_guard_page(0x0800_3000);
    assert_eq!(vas.virt_to_phys(0x0800_3000), None);
    vas.remove_guard_page(0x0800_3000);
    assert_eq!(vas.virt_to_phys(0x0800_3000), Some(0x0040_0000));
}

#[test]
fn pages_are_allocated_from_the_stack_top_down() {
    let mut vas = space_with_table(0x0800_0000);
    let mut stack = PmmStack::new(8);
    for page in [0x0050_0000u32, 0x0051_0000, 0x0052_0000] {
        stack.push_page(page);
    }
    vas.allocate_pages_from_stack(0x0800_0000, 0x0800_2000, &mut stack);
    assert_eq!(vas.virt_to_phys(0x0800_0000), Some(0x0052_0000));
    assert_eq!(vas.virt_to_phys(0x0800_1000), Some(0x0051_0000));
    assert_eq!(stack.pages, vec![0x0050_0000]);
}

#[test]
fn only_missing_pages_are_mapped() {
    let mut vas = space_with_table(0x0800_0000);
    vas.map_page(0x0800_1000, 0x0060_0000);
    let mut stack = PmmStack::new(8);
    for page in [0x0050_0000u32, 0x0051_0000, 0x0052_0000] {
        stack.push_page(page);
    }
    vas.map_missing_pages(0x0800_0000, 0x0800_3000, &mut stack);
    assert_eq!(vas.virt_to_phys(0x0800_0000), Some(0x0052_0000));
    assert_eq!(vas.virt_to_phys(0x0800_1000), Some(0x0060_0000));
    assert_eq!(vas.virt_to_phys(0x0800_2000), Some(0x0051_0000));
    assert_eq!(stack.pages, vec![0x0050_0000]);
}

#[test]
fn identity_mapped_space_maps_low_memory_to_itself() {
    let vas = VirtAddrSpace::new_identity_mapped(0x0010_0000, &[0x0011_0000]);
    assert_eq!(vas.virt_to_phys(0), Some(0));
    assert_eq!(vas.virt_to_phys(0x0012_3000), Some(0x0012_3000));
    assert_eq!(vas.virt_to_phys(0x003F_F000), Some(0x003F_F000));
    assert_eq!(vas.virt_to_phys(0x0040_0000), None);
    let tables: Vec<u32> = (0..1024u32).map(|i| 0x0100_0000 + 0x1000 * i).collect();
    let user = vas.copy_for_usermode(0x0013_0000, &tables);
    assert_eq!(user.virt_to_phys(0x0012_3000), Some(0x0012_3000));
    assert!(user.usermode);
}

#[test]
fn pmm_stack_is_last_in_first_out() {
    let mut stack = PmmStack::new(2);
    stack.push_page(0x1000);
    stack.push_page(0x2000);
    assert_eq!(stack.pop_page(), 0x2000);
    assert_eq!(stack.pop_page(), 0x1000);
    assert!(stack.pages.is_empty());
}

#[test]
fn pmm_stack_fills_around_the_kernel() {
    let mut stack = PmmStack::new(64);
    let regions = [
        Region { start: 0x1000, end: 0x3800 },
        Region { start: 0x8800, end: 0xB000 },
        Region { start: 0, end: 0 },
        Region { start: 0x20000, end: 0x30000 },
    ];
    stack.fill(&regions, Region { start: 0x3000, end: 0x4000 });
    // The first region ends in the kernel's; the second is rounded to whole
    // pages; nothing after the empty region is used.
    assert_eq!(stack.pages, vec![0x1000, 0x2000, 0x9000, 0xA000]);
}

#[test]
fn word_stack_push_and_pop() {
    let mut s = Stack::from_region(0x1000, 0x1008);
    assert_eq!(s.top(), 0x1008);
    assert_eq!(s.bottom(), 0x1008);
    assert_eq!(s.pop(), Err(PopErr::Empty));
    assert_eq!(s.push(7), Ok(()));
    assert_eq!(s.push(9), Ok(()));
    assert_eq!(s.top(), 0x1000);
    assert_eq!(s.push(11), Err(PushErr::Full));
    assert_eq!(s.pop(), Ok(9));
    assert_eq!(s.pop(), Ok(7));
}

#[test]
fn ports_allow_their_access_sizes() {
    let p = PortBuilder::port(0x60).size(8).done();
    assert_eq!(p.port, 0x60);
    assert!(p.can_read_size(8));
    assert!(p.can_write_size(8));
    assert!(!p.can_read_size(16));
    let q = PortBuilder::port(0x64).read_size(8).write_size(16).done();
    assert!(q.can_read_size(8));
    assert!(!q.can_write_size(8));
    assert!(q.can_write_size(16));
}

#[test]
fn ranges_map_to_consecutive_frames() {
    let mut vas = space_with_table(0x0800_0000);
    vas.map_range(0x0800_2000, 0x0070_0000, 3);
    assert_eq!(vas.virt_to_phys(0x0800_2000), Some(0x0070_0000));
    assert_eq!(vas.virt_to_phys(0x0800_4000), Some(0x0070_2000));
    assert_eq!(vas.virt_to_phys(0x0800_5000), None);
}

#[test]
fn hpet_registers_are_mapped_after_the_kernel() {
    let mut vas = VirtAddrSpace::empty(0x0010_0000, false);
    let hpet = Region { start: 0xFED0_0000, end: 0xFED0_1000 };
    let slot = lib::acpi::map_hpet(&mut vas, 0x0012_3456, hpet, 0x0030_0000);
    assert_eq!((slot.start, slot.end), (0x0040_0000, 0x0080_0000));
    assert_eq!(vas.virt_to_phys(0x0040_0000), Some(0xFED0_0000));
    assert_eq!(vas.virt_to_phys(0x0040_1000), None);
}

#[test]
fn the_kernel_heap_is_mapped_from_the_free_pages() {
    let mut vas = VirtAddrSpace::empty(0x0010_0000, false);
    let mut stack = PmmStack::new(2048);
    for i in 0..1100u32 {
        stack.push_page(0x0100_0000 + 0x1000 * i);
    }
    let heap = lib::arch_info::map_kernel_heap(&mut vas, 0x0012_3456, 0x0030_0000, &mut stack);
    assert_eq!((heap.start, heap.end), (0x0040_0000, 0x0080_0000));
    assert_eq!(vas.virt_to_phys(0x0040_0000), Some(0x0100_0000 + 0x1000 * 1099));
    assert_eq!(vas.virt_to_phys(0x007F_F000), Some(0x0100_0000 + 0x1000 * 76));
    assert_eq!(stack.pages.len(), 1100 - 1024);
}
