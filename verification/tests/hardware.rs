use lib::interrupts::{stage1_irq15_handler, stage1_irq7_handler, Stage1Action};
use lib::vas::{empty_entries, page_fault_cause, FaultedPage, PageFaultCause, VirtAddrSpace};
use lib::keyboard::Response;
use lib::pic::{Pic, PortWrite, MASTER_COMMAND, MASTER_DATA, OCW3_READ_ISR, SLAVE_COMMAND, SLAVE_DATA};
use lib::acpi::hpet::{period_ticks, HpetDt, HPET_DT_SIZE};
use lib::acpi::sdt::{Sdt, SDT_SIZE};
use lib::ata::{check_status, data_requested, identify_status, is_busy, usable_drive, DriveId, IdentifyStatus, StatusErr};
use lib::gdt::{kernel_gdt, Entry, GdtDescriptor, GlobalDescriptorTable, TaskStateSegment, KERNEL_CODE_IDX, TSS_IDX};
use lib::interrupts::{kernel_idt, Dpl, Gate, GateType, InterruptDescriptorTable, TypeAttr, NUM_EXCEPTIONS, SYSCALL_VECTOR};
use lib::pci::{
    classify, conf_address, host_bus_numbers, ide_controllers, BridgeDeviceSubclass, ConfSpaceKind, Device, DeviceClass, Function,
    FunctionRegisters, MassStorageControllerSubclass, IdeControllerInterface, Register, RegisterWidth,
};

fn handler_of(g: &Gate) -> u32 {
    g.offset_1 as u32 | ((g.offset_2 as u32) << 16)
}

fn regs(vendor: u16, class: u32, header_type: u8) -> FunctionRegisters {
    FunctionRegisters { reg_00: 0x1234_0000 | vendor as u32, reg_08: class, reg_0c: (header_type as u32) << 16 }
}

#[test]
fn pci_configuration_addresses() {
    assert_eq!(conf_address(0, 0, 0, 0), 0x8000_0000);
    assert_eq!(conf_address(1, 2, 3, 0x0C), 0x8001_130C);
}

#[test]
fn pci_register_fields() {
    let r = Register::read_write(0x04, 8, RegisterWidth::Byte);
    assert_eq!(r.read_value(0x1234_5678), 0x56);
    assert_eq!(r.write_value(0x1234_5678, 0xAB), Some(0x1234_AB78));
    assert_eq!(r.write_value(0x1234_5678, 0x56), None);
    let w = Register::read_only(0x00, 16, RegisterWidth::Word);
    assert_eq!(w.read_value(0xBEEF_1234), 0xBEEF);
}

#[test]
fn pci_functions_and_classes() {
    let ide = Function::new(0, 1, 1, regs(0x8086, 0x0101_8000, 0x00));
    assert_eq!(ide.conf_space, Some(ConfSpaceKind::Device));
    assert_eq!(
        ide.class,
        DeviceClass::MassStorageController(MassStorageControllerSubclass::IdeController(
            IdeControllerInterface::IsaCompatibilityModeOnlyWithBusMastering
        ))
    );
    assert!(ide.is_present(0x8086));
    let bridge = Function::new(0, 2, 0, regs(0x8086, 0x0604_0000, 0x01));
    assert_eq!(bridge.conf_space, Some(ConfSpaceKind::PciToPciBridge));
    assert_eq!(bridge.class, DeviceClass::Unknown);
    let absent = Function::new(0, 3, 0, regs(0xFFFF, 0, 0));
    assert_eq!(absent.conf_space, None);
    assert!(!absent.is_present(0xFFFF));
    assert_eq!(classify(0x06, 0x00, 0x00), DeviceClass::BridgeDevice(BridgeDeviceSubclass::HostBridge));
    assert_eq!(classify(0x06, 0x04, 0x00), DeviceClass::BridgeDevice(BridgeDeviceSubclass::Unknown));
    assert_eq!(classify(0x42, 0, 0), DeviceClass::Unknown);
}

#[test]
fn pci_host_buses() {
    let single = Device::new(0, 0, &[regs(0x8086, 0x0600_0000, 0x00); 8]);
    assert_eq!(single.functions.len(), 1);
    assert_eq!(host_bus_numbers(&single), vec![0]);
    let mut all = [regs(0xFFFF, 0, 0); 8];
    all[0] = regs(0x8086, 0x0600_0000, 0x80);
    all[2] = regs(0x8086, 0x0600_0000, 0x00);
    all[5] = regs(0x8086, 0x0600_0000, 0x00);
    let multi = Device::new(0, 0, &all);
    assert!(multi.is_multifunctional());
    assert_eq!(multi.functions.len(), 8);
    assert_eq!(host_bus_numbers(&multi), vec![0, 2, 5]);
}

#[test]
fn pci_ide_controllers_in_order() {
    let mut a = [regs(0xFFFF, 0, 0); 8];
    a[0] = regs(0x8086, 0x0600_0000, 0x80);
    a[1] = regs(0x8086, 0x0101_8000, 0x00);
    a[3] = regs(0x8086, 0x0101_0000, 0x00);
    let host = Device::new(0, 0, &a);
    let other = Device::new(0, 4, &[regs(0x8086, 0x0101_8000, 0x00); 8]);
    let bridge = Device::new(0, 5, &[regs(0x8086, 0x0101_8000, 0x01); 8]);
    let found = ide_controllers(&[host, other, bridge]);
    assert_eq!(found.len(), 2);
    assert_eq!((found[0].device_num, found[0].function_num), (0, 1));
    assert_eq!((found[1].device_num, found[1].function_num), (4, 0));
    assert!(ide_controllers(&[]).is_empty());
}

#[test]
fn ata_identify_outcomes() {
    assert_eq!(identify_status(0, 0, 0), IdentifyStatus::Absent);
    assert_eq!(identify_status(0x51, 0, 0), IdentifyStatus::Aborted);
    assert_eq!(identify_status(0x51, 0x14, 0xEB), IdentifyStatus::NotAta);
    assert_eq!(identify_status(0x58, 0, 0), IdentifyStatus::Present);
}

#[test]
fn ata_status_bits() {
    assert!(is_busy(0x80));
    assert!(!is_busy(0x58));
    assert!(data_requested(0x58));
    assert!(!data_requested(0x50));
    assert_eq!(check_status(0x50), Ok(()));
    assert_eq!(check_status(0x21), Err(StatusErr::DriveFault));
    assert_eq!(check_status(0x41), Err(StatusErr::Error));
}

#[test]
fn ata_drives_need_lba28() {
    let mut data = [0u16; 256];
    assert!(usable_drive(DriveId::Master, &data).is_none());
    data[60] = 0x0000;
    data[61] = 0x0001;
    let d = usable_drive(DriveId::Slave, &data).unwrap();
    assert_eq!(d.num_sectors_lba28, 0x1_0000);
    assert_eq!(d.id, DriveId::Slave);
}

#[test]
fn hpet_table_and_period() {
    let mut b = [0u8; HPET_DT_SIZE];
    b[0..4].copy_from_slice(&0x8086_A201u32.to_le_bytes());
    b[8..16].copy_from_slice(&0xFED0_0000u64.to_le_bytes());
    b[16] = 0;
    b[17..19].copy_from_slice(&0x80u16.to_le_bytes());
    let dt = HpetDt::from_bytes(&b);
    assert_eq!(dt.hardware_rev_id(), 0x01);
    assert_eq!(dt.num_comparators(), 2);
    assert_eq!(dt.pci_vendor_id(), 0x8086);
    assert_eq!(dt.main_counter_min_tick, 0x80);
    let region = dt.region_to_map();
    assert_eq!((region.start, region.end), (0xFED0_0000, 0xFED0_1000));
    // 10 ms at 69.841279 ns per tick.
    assert_eq!(period_ticks(10, 69_841_279, 0x80), Some(143_181));
    assert_eq!(period_ticks(1, 2_000_000_000, 0), Some(500));
    assert_eq!(period_ticks(0, 100, 0), None);
    assert_eq!(period_ticks(1, 100_000_000, 20_000), None);
}

#[test]
fn rsdt_entries_need_a_zero_checksum() {
    let mut header = [0u8; SDT_SIZE];
    header[0..4].copy_from_slice(b"RSDT");
    header[4..8].copy_from_slice(&((SDT_SIZE + 8) as u32).to_le_bytes());
    let body: Vec<u8> = [0x1000u32, 0x2000u32].iter().flat_map(|x| x.to_le_bytes()).collect();
    let sum: u32 = header.iter().chain(body.iter()).map(|&x| x as u32).sum();
    header[9] = ((256 - sum % 256) % 256) as u8;
    let sdt = Sdt::from_bytes(&header);
    assert!(!sdt.is_hpet());
    assert_eq!(sdt.rsdt_entries(&body), Some(vec![0x1000, 0x2000]));
    header[9] = header[9].wrapping_add(1);
    let bad = Sdt::from_bytes(&header);
    assert_eq!(bad.rsdt_entries(&body), None);
}

#[test]
fn gdt_descriptors() {
    let e = Entry::new(0x1234_5678, 0xFFFFF, 0x9A, 0xC0);
    assert_eq!(e.base_0_15, 0x5678);
    assert_eq!(e.base_16_23, 0x34);
    assert_eq!(e.base_24_31, 0x12);
    assert_eq!(e.flags_limit_16_19, 0xCF);
    assert!(Entry::missing().is_null());
    let gdt = kernel_gdt(0x0010_0000);
    assert_eq!(gdt.0[KERNEL_CODE_IDX].access_byte, 0x9A);
    assert_eq!(gdt.0[TSS_IDX].base_0_15, 0x0000);
    assert_eq!(gdt.0[TSS_IDX].base_16_23, 0x10);
    assert_eq!(gdt.num_segments(), 7);
    let d: GdtDescriptor = gdt.descriptor(0x0020_0000);
    assert_eq!(d.size, 7 * 8 - 1);
    let as_entry = d.into_entry();
    assert_eq!(as_entry.limit_0_15, 55);
    assert_eq!(as_entry.base_16_23, 0x20);
    let empty = GlobalDescriptorTable::new();
    assert_eq!(empty.num_segments(), 1);
    let tss = TaskStateSegment::new();
    assert_eq!(tss.esp0, 0);
    // The packed segment is 102 bytes: its I/O map base points just past it.
    assert_eq!(tss.iobp_offset, 102);
}

#[test]
fn idt_gates() {
    let attr = TypeAttr::new(true, Dpl::Userspace, GateType::InterruptGate32Bit);
    assert_eq!(attr.0, 0xEE);
    let mut attr2 = attr;
    attr2.set_dpl(Dpl::Kernel);
    assert_eq!(attr2.0, 0x8E);
    let mut idt = InterruptDescriptorTable::new(0x1000, 0x2000);
    assert_eq!(handler_of(&idt.gates[13]), 0x2000);
    assert_eq!(handler_of(&idt.gates[3]), 0x1000);
    idt.set_interrupt_handler(1, 0xABCD_0123);
    assert_eq!(handler_of(&idt.gates[NUM_EXCEPTIONS + 1]), 0xABCD_0123);
    let isrs: Vec<u32> = (0..NUM_EXCEPTIONS as u32).map(|i| 0x5000 + i).collect();
    let k = kernel_idt(0x1000, 0x2000, &isrs, 0x7777, 0xFFFF, 0x8888);
    assert_eq!(handler_of(&k.gates[5]), 0x5005);
    assert_eq!(handler_of(&k.gates[NUM_EXCEPTIONS + 7]), 0x7777);
    assert_eq!(handler_of(&k.gates[SYSCALL_VECTOR]), 0x8888);
    assert_eq!((k.gates[SYSCALL_VECTOR].type_attr.0 >> 5) & 0b11, 3);
    assert_eq!(handler_of(&k.gates[NUM_EXCEPTIONS + 1]), 0x1000);
}

#[test]
fn spurious_irqs_are_ignored() {
    assert_eq!(stage1_irq7_handler(0x0000, true), Stage1Action::IgnoreSpurious);
    assert_eq!(stage1_irq7_handler(0x0080, true), Stage1Action::CallStage2);
    assert_eq!(stage1_irq7_handler(0x0080, false), Stage1Action::Unhandled);
    assert_eq!(stage1_irq15_handler(0x0080, true), Stage1Action::IgnoreSpurious);
    assert_eq!(stage1_irq15_handler(0x8000, true), Stage1Action::CallStage2);
}

#[test]
fn page_fault_causes_and_pages() {
    assert_eq!(
        page_fault_cause(0b0110),
        PageFaultCause { protection_violation: false, write: true, userspace: true, instruction_fetch: false }
    );
    assert_eq!(
        page_fault_cause(0b1001),
        PageFaultCause { protection_violation: true, write: false, userspace: false, instruction_fetch: true }
    );
    let mut vas = VirtAddrSpace::empty(0x1000, false);
    assert_eq!(vas.faulted_page(0x0800_1234), FaultedPage::NoTable);
    vas.set_pde_addr(0x0800_0000 >> 22, empty_entries(), 0x2000);
    assert_eq!(vas.faulted_page(0x0800_1234), FaultedPage::Other);
    vas.place_guard_page(0x0800_1000);
    assert_eq!(vas.faulted_page(0x0800_1234), FaultedPage::GuardPage);
}

#[test]
fn keyboard_command_responses() {
    assert_eq!(Response::from(0xFA), Response::Ack);
    assert_eq!(Response::from(0xFE), Response::Resend);
    assert_eq!(Response::from(0x00), Response::Error);
    assert_eq!(Response::from(0xFF), Response::Error);
    assert_eq!(Response::from(0x12), Response::Unknown);
}

#[test]
fn pic_in_service_register_and_masking() {
    let pic = Pic::kernel_pic();
    assert_eq!(
        pic.isr_request(),
        vec![
            PortWrite { port: MASTER_COMMAND, value: OCW3_READ_ISR },
            PortWrite { port: SLAVE_COMMAND, value: OCW3_READ_ISR }
        ]
    );
    assert_eq!(pic.get_isr(0x80, 0x01), 0x0180);
    let writes = pic.mask_irqs(0x10, 0x00);
    assert_eq!(writes.len(), 16);
    assert_eq!(writes[0], PortWrite { port: MASTER_DATA, value: 0x11 });
    assert_eq!(writes[2], PortWrite { port: MASTER_DATA, value: 0x17 });
    assert_eq!(writes[7], PortWrite { port: MASTER_DATA, value: 0xFF });
    assert_eq!(writes[8], PortWrite { port: SLAVE_DATA, value: 0x01 });
    assert_eq!(writes[15], PortWrite { port: SLAVE_DATA, value: 0xFF });
}

#[test]
fn ata_words_and_bytes() {
    let bytes = [0x34u8, 0x12, 0xCD, 0xAB];
    let words = lib::ata::slice_u8_to_u16(&bytes);
    assert_eq!(words, vec![0x1234, 0xABCD]);
    assert_eq!(lib::ata::boxed_slice_u16_to_u8(&words), bytes.to_vec());
    assert!(lib::ata::slice_u8_to_u16(&[]).is_empty());
}
