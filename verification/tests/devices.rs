use lib::ata::{Bus, Drive, DriveId, ReadErr, WriteErr};
use lib::pic::{Pic, PortWrite, EOI, MASTER_COMMAND, MASTER_DATA, SLAVE_COMMAND, SLAVE_DATA};
use lib::pit::{AccessMode, OperatingMode, Pit, CHANNEL0_DATA, MODE_COMMAND_REGISTER};
use lib::stack_trace::StackTrace;

#[test]
fn pic_initialization_sequence() {
    let pic = Pic::kernel_pic();
    let w = pic.init_sequence();
    assert_eq!(w.len(), 8);
    assert_eq!(w[0], PortWrite { port: MASTER_COMMAND, value: 0x11 });
    assert_eq!(w[1], PortWrite { port: SLAVE_COMMAND, value: 0x11 });
    assert_eq!(w[2], PortWrite { port: MASTER_DATA, value: 32 });
    assert_eq!(w[3], PortWrite { port: SLAVE_DATA, value: 40 });
    assert_eq!(w[4], PortWrite { port: MASTER_DATA, value: 4 });
    assert_eq!(w[5], PortWrite { port: SLAVE_DATA, value: 2 });
    assert_eq!(w[6].value, 1);
}

#[test]
fn pic_start_up_masks_every_irq() {
    let pic = Pic::kernel_pic();
    let w = pic.init(0x01, 0x01);
    assert_eq!(w.len(), 24);
    assert_eq!(&w[..8], &pic.init_sequence()[..]);
    assert_eq!(w[8], PortWrite { port: MASTER_DATA, value: 0x01 });
    assert_eq!(w[9], PortWrite { port: MASTER_DATA, value: 0x03 });
    assert_eq!(w[16], PortWrite { port: SLAVE_DATA, value: 0x01 });
    let last_master = w.iter().rev().find(|x| x.port == MASTER_DATA).unwrap();
    let last_slave = w.iter().rev().find(|x| x.port == SLAVE_DATA).unwrap();
    assert_eq!(last_master.value, 0xFF);
    assert_eq!(last_slave.value, 0xFF);
}

#[test]
fn pic_masks_and_acknowledges() {
    let pic = Pic::kernel_pic();
    assert_eq!(pic.set_irq_mask(3, true, 0x00), PortWrite { port: MASTER_DATA, value: 0x08 });
    assert_eq!(pic.set_irq_mask(14, false, 0xFF), PortWrite { port: SLAVE_DATA, value: 0xBF });
    assert_eq!(pic.set_irq_mask(0, false, 0x01), PortWrite { port: MASTER_DATA, value: 0x00 });
    assert_eq!(pic.send_eoi(1), vec![PortWrite { port: MASTER_COMMAND, value: EOI }]);
    assert_eq!(
        pic.send_eoi(12),
        vec![PortWrite { port: SLAVE_COMMAND, value: EOI }, PortWrite { port: MASTER_COMMAND, value: EOI }]
    );
}

#[test]
fn pit_programming() {
    let pit = Pit { reload_value: 0x1234, operating_mode: OperatingMode::SquareWaveGenerator, access_mode: AccessMode::BothBytes };
    let w = pit.init();
    assert_eq!(w[0], PortWrite { port: MODE_COMMAND_REGISTER, value: 0x36 });
    assert_eq!(w[1], PortWrite { port: CHANNEL0_DATA, value: 0x34 });
    assert_eq!(w[2], PortWrite { port: CHANNEL0_DATA, value: 0x12 });
    let low = Pit { reload_value: 0x42, operating_mode: OperatingMode::RateGenerator, access_mode: AccessMode::LowByteOnly };
    assert_eq!(low.send_register().value, 0x14);
    assert_eq!(low.send_reload_value(), vec![PortWrite { port: CHANNEL0_DATA, value: 0x42 }]);
    let high = Pit { reload_value: 0x4200, operating_mode: OperatingMode::InterruptOnTerminalCount, access_mode: AccessMode::HighByteOnly };
    assert_eq!(high.send_reload_value(), vec![PortWrite { port: CHANNEL0_DATA, value: 0x42 }]);
}

fn identify(lba28: u32, lba48_support: bool) -> Vec<u16> {
    let mut d = vec![0u16; 256];
    d[60] = lba28 as u16;
    d[61] = (lba28 >> 16) as u16;
    if lba48_support {
        d[83] = 1 << 10;
    }
    d[100] = 0x5678;
    d[101] = 0x1234;
    d
}

#[test]
fn ata_drive_from_identify_data() {
    let d = Drive::from_identify_data(DriveId::Slave, &identify(0x0002_0000, true));
    assert_eq!(d.id, DriveId::Slave);
    assert!(d.supports_lba48);
    assert_eq!(d.num_sectors_lba28, 0x0002_0000);
    assert_eq!(d.num_sectors_lba48, 0x1234_5678);
    assert_eq!(d.block_size(), 512);
    assert!(d.has_block(0x1_FFFF));
    assert!(!d.has_block(0x2_0000));
}

#[test]
fn ata_read_and_write_checks() {
    let d = Drive::from_identify_data(DriveId::Master, &identify(100, false));
    assert_eq!(d.read_blocks(5, 1024), Ok((5, 2)));
    assert_eq!(d.read_blocks(5, 0), Err(ReadErr::InvalidNumBlocks));
    assert_eq!(d.read_blocks(5, 256 * 512), Err(ReadErr::TooMuchBlocks));
    assert_eq!(d.read_blocks(100, 512), Err(ReadErr::NoSuchBlock));
    assert_eq!(d.read_block(99), Ok(99));
    assert_eq!(d.read_block(100), Err(ReadErr::NoSuchBlock));
    assert_eq!(d.write_blocks(0, 0), Err(WriteErr::EmptyDataPassed));
    assert_eq!(d.write_blocks(98, 1024), Ok((98, 2)));
    assert_eq!(d.write_blocks(99, 1024), Err(WriteErr::TooMuchBlocks));
    assert_eq!(d.write_blocks(100, 512), Err(WriteErr::NoSuchBlock));
    assert_eq!(d.write_block(3), Ok(3));
}

#[test]
fn ata_bus_registers() {
    let mut bus = Bus::new(0x1F0, 0x3F6);
    assert_eq!(bus.registers.status.port, 0x1F7);
    assert_eq!(bus.registers.command.port, 0x1F7);
    assert!(bus.registers.status.can_read_size(8));
    assert!(!bus.registers.status.can_write_size(8));
    assert!(bus.registers.data.can_read_size(16));
    assert_eq!(bus.registers.drive_address.port, 0x3F7);
    assert_eq!(bus.select_drive(DriveId::Master, 0xE0), None);
    assert_eq!(bus.select_drive(DriveId::Slave, 0xE0), Some(0xF0));
    assert_eq!(bus.select_drive(DriveId::Master, 0xF0), Some(0xE0));
    assert_eq!(Bus::set_lba(0x0123_4567, 0xE0), (0x67, 0x45, 0x23, 0xE1));
}

#[test]
fn stack_traces_iterate_in_order() {
    let mut a = [0u32; 32];
    a[0] = 0x100;
    a[1] = 0x200;
    a[2] = 0x300;
    let t = StackTrace::new(a, 2);
    let mut it = t.iter();
    assert_eq!(it.next(), Some(0x100));
    assert_eq!(it.next(), Some(0x200));
    assert_eq!(it.next(), None);
    assert_eq!(it.next(), None);
}
