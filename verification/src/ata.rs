use vstd::prelude::*;

use crate::port::{Port, PortBuilder};

verus! {

/// Bytes in a sector of an ATA drive.
pub const SECTOR_SIZE: usize = 512;

/// The I/O and control port bases of the primary and secondary buses.
pub const ATA0_PORT_IO_BASE: u16 = 0x1F0;
pub const ATA0_PORT_CONTROL_BASE: u16 = 0x3F6;
pub const ATA1_PORT_IO_BASE: u16 = 0x170;
pub const ATA1_PORT_CONTROL_BASE: u16 = 0x376;

/// Why blocks could not be read.
#[derive(Clone, Copy, Debug, PartialEq, Eq, Structural)]
pub enum ReadErr {
    NoSuchBlock,
    TooMuchBlocks,
    InvalidNumBlocks,
}

/// Why blocks could not be written.
#[derive(Clone, Copy, Debug, PartialEq, Eq, Structural)]
pub enum WriteErr {
    NoSuchBlock,
    TooMuchBlocks,
    EmptyDataPassed,
}

/// Which drive of a bus.
#[derive(Clone, Copy, Debug, PartialEq, Eq, Structural)]
pub enum DriveId {
    Master,
    Slave,
}

/// An ATA drive, as its identify data describes it.
#[derive(Clone, Copy, Debug, PartialEq, Eq, Structural)]
pub struct Drive {
    pub id: DriveId,
    pub supports_lba48: bool,
    pub num_sectors_lba28: u32,
    pub num_sectors_lba48: u64,
}

/// The ports of an ATA bus.
pub struct Registers {
    pub data: Port,
    pub error: Port,
    pub features: Port,
    pub sector_count: Port,
    pub lba_0: Port,
    pub lba_8: Port,
    pub lba_16: Port,
    pub drive: Port,
    pub status: Port,
    pub command: Port,
    pub alt_status: Port,
    pub device_control: Port,
    pub drive_address: Port,
}

/// An ATA bus: its ports and the drive last selected on it.
pub struct Bus {
    pub registers: Registers,
    pub selected_drive: DriveId,
}

/// The block exists on a drive with `n` LBA28 sectors: its index read as 32
/// bits is below `n`, and it does not lose bits in that reading.
pub open spec fn spec_has_block(n: u32, block_idx: usize) -> bool {
    !((block_idx != 0 && block_idx as u32 == 0) || block_idx as u32 >= n)
}

/// The drive register value that selects `drive`: bit 4 set for the slave.
pub open spec fn spec_select_value(current: u8, drive: DriveId) -> u8 {
    (current & !(1u8 << 4u8)) | ((if drive == DriveId::Slave { 1u8 } else { 0u8 }) << 4u8)
}

impl Drive {
    /// The drive described by 256 words of identify data.
    pub fn from_identify_data(id: DriveId, data: &[u16]) -> (r: Drive)
        requires
            data@.len() == 256,
        ensures
            r.id == id,
            r.supports_lba48 == (data@[83] & (1u16 << 10u16) != 0),
            r.num_sectors_lba28 == ((data@[61] as u32) << 16u32) | data@[60] as u32,
            r.num_sectors_lba48 == ((data@[103] as u64) << 48u64) | ((data@[102] as u64) << 32u64) | ((
            data@[101] as u64) << 16u64) | data@[100] as u64,
    {
        Drive {
            id,
            supports_lba48: data[83] & (1u16 << 10u16) != 0,
            num_sectors_lba28: ((data[61] as u32) << 16u32) | data[60] as u32,
            num_sectors_lba48: ((data[103] as u64) << 48u64) | ((data[102] as u64) << 32u64) | ((
            data[101] as u64) << 16u64) | data[100] as u64,
        }
    }

    /// Bytes in a block of the drive: a sector.
    pub fn block_size(&self) -> (r: usize)
        ensures
            r == SECTOR_SIZE,
    {
        SECTOR_SIZE
    }

    pub fn has_block(&self, block_idx: usize) -> (r: bool)
        ensures
            r == spec_has_block(self.num_sectors_lba28, block_idx),
    {
        !((block_idx != 0 && block_idx as u32 == 0) || block_idx as u32 >= self.num_sectors_lba28)
    }

    /// Checks a read of `buf_len` bytes from block `first_block_idx` on:
    /// the LBA and the number of sectors to read, or why the read is
    /// refused.  The length must be a whole number of blocks.
    pub fn read_blocks(&self, first_block_idx: usize, buf_len: usize) -> (r: Result<(u32, u8), ReadErr>)
        requires
            buf_len % SECTOR_SIZE == 0,
        ensures
            ({
                let n = buf_len / SECTOR_SIZE;
                if n == 0 {
                    r == Err::<(u32, u8), ReadErr>(ReadErr::InvalidNumBlocks)
                } else if n % 256 == 0 {
                    r == Err::<(u32, u8), ReadErr>(ReadErr::TooMuchBlocks)
                } else if !spec_has_block(self.num_sectors_lba28, first_block_idx) {
                    r == Err::<(u32, u8), ReadErr>(ReadErr::NoSuchBlock)
                } else {
                    r == Ok::<(u32, u8), ReadErr>((first_block_idx as u32, (n % 256) as u8))
                }
            }),
    {
        let num_blocks = buf_len / SECTOR_SIZE;
        if num_blocks == 0 {
            return Err(ReadErr::InvalidNumBlocks);
        }
        if num_blocks % 256 == 0 {
            return Err(ReadErr::TooMuchBlocks);
        }
        if self.has_block(first_block_idx) {
            Ok((first_block_idx as u32, (num_blocks % 256) as u8))
        } else {
            Err(ReadErr::NoSuchBlock)
        }
    }

    /// Checks a read of block `block_idx`: its LBA, or why it is refused.
    pub fn read_block(&self, block_idx: usize) -> (r: Result<u32, ReadErr>)
        ensures
            spec_has_block(self.num_sectors_lba28, block_idx) ==> r == Ok::<u32, ReadErr>(block_idx as u32),
            !spec_has_block(self.num_sectors_lba28, block_idx) ==> r == Err::<u32, ReadErr>(ReadErr::NoSuchBlock),
    {
        if self.has_block(block_idx) {
            Ok(block_idx as u32)
        } else {
            Err(ReadErr::NoSuchBlock)
        }
    }

    /// Checks a write of block `block_idx`: its LBA, or why it is refused.
    pub fn write_block(&self, block_idx: usize) -> (r: Result<u32, WriteErr>)
        ensures
            spec_has_block(self.num_sectors_lba28, block_idx) ==> r == Ok::<u32, WriteErr>(block_idx as u32),
            !spec_has_block(self.num_sectors_lba28, block_idx) ==> r == Err::<u32, WriteErr>(WriteErr::NoSuchBlock),
    {
        if !self.has_block(block_idx) {
            Err(WriteErr::NoSuchBlock)
        } else {
            Ok(block_idx as u32)
        }
    }

    /// Checks a write of `data_len` bytes from block `first_block_idx` on:
    /// the LBA and the number of sectors to write, or why the write is
    /// refused.  A non-empty length must be a whole number of blocks.
    pub fn write_blocks(&self, first_block_idx: usize, data_len: usize) -> (r: Result<(u32, u8), WriteErr>)
        requires
            data_len % SECTOR_SIZE == 0,
            first_block_idx + data_len / SECTOR_SIZE <= usize::MAX,
        ensures
            ({
                let n = data_len / SECTOR_SIZE;
                if data_len == 0 {
                    r == Err::<(u32, u8), WriteErr>(WriteErr::EmptyDataPassed)
                } else if !spec_has_block(self.num_sectors_lba28, first_block_idx) {
                    r == Err::<(u32, u8), WriteErr>(WriteErr::NoSuchBlock)
                } else if !spec_has_block(self.num_sectors_lba28, (first_block_idx + n - 1) as usize) || n % 256 == 0 {
                    r == Err::<(u32, u8), WriteErr>(WriteErr::TooMuchBlocks)
                } else {
                    r == Ok::<(u32, u8), WriteErr>((first_block_idx as u32, (n % 256) as u8))
                }
            }),
    {
        if data_len == 0 {
            return Err(WriteErr::EmptyDataPassed);
        }
        let num_blocks = data_len / SECTOR_SIZE;
        let last_block_idx = first_block_idx + num_blocks - 1;
        if !self.has_block(first_block_idx) {
            Err(WriteErr::NoSuchBlock)
        } else if !self.has_block(last_block_idx) || num_blocks % 256 == 0 {
            Err(WriteErr::TooMuchBlocks)
        } else {
            Ok((first_block_idx as u32, (num_blocks % 256) as u8))
        }
    }
}

impl Registers {
    /// The ports of a bus whose I/O and control ports start at the given
    /// bases.
    pub fn new(port_io_base: u16, port_control_base: u16) -> (r: Registers)
        requires
            port_io_base + 7 <= u16::MAX,
            port_control_base + 1 <= u16::MAX,
        ensures
            r.data.port == port_io_base && r.data.read_sizes@ == seq![16u8] && r.data.write_sizes@ == seq![16u8],
            r.error.port == port_io_base + 1 && r.error.read_sizes@ == seq![8u8, 16u8] && r.error.write_sizes@
                == Seq::<u8>::empty(),
            r.features.port == port_io_base + 1 && r.features.read_sizes@ == Seq::<u8>::empty()
                && r.features.write_sizes@ == seq![8u8, 16u8],
            r.sector_count.port == port_io_base + 2 && r.sector_count.read_sizes@ == seq![8u8, 16u8],
            r.lba_0.port == port_io_base + 3,
            r.lba_8.port == port_io_base + 4,
            r.lba_16.port == port_io_base + 5,
            r.drive.port == port_io_base + 6 && r.drive.read_sizes@ == seq![8u8] && r.drive.write_sizes@ == seq![8u8],
            r.status.port == port_io_base + 7 && r.status.read_sizes@ == seq![8u8] && r.status.write_sizes@
                == Seq::<u8>::empty(),
            r.command.port == port_io_base + 7 && r.command.read_sizes@ == Seq::<u8>::empty()
                && r.command.write_sizes@ == seq![8u8],
            r.alt_status.port == port_control_base && r.alt_status.read_sizes@ == seq![8u8],
            r.device_control.port == port_control_base && r.device_control.write_sizes@ == seq![8u8],
            r.drive_address.port == port_control_base + 1 && r.drive_address.read_sizes@ == seq![8u8],
    {
        Registers {
            data: PortBuilder::port(port_io_base).size(16).done(),
            error: PortBuilder::port(port_io_base + 1).read_size(8).read_size(16).done(),
            features: PortBuilder::port(port_io_base + 1).write_size(8).write_size(16).done(),
            sector_count: PortBuilder::port(port_io_base + 2).size(8).size(16).done(),
            lba_0: PortBuilder::port(port_io_base + 3).size(8).size(16).done(),
            lba_8: PortBuilder::port(port_io_base + 4).size(8).size(16).done(),
            lba_16: PortBuilder::port(port_io_base + 5).size(8).size(16).done(),
            drive: PortBuilder::port(port_io_base + 6).size(8).done(),
            status: PortBuilder::port(port_io_base + 7).read_size(8).done(),
            command: PortBuilder::port(port_io_base + 7).write_size(8).done(),
            alt_status: PortBuilder::port(port_control_base).read_size(8).done(),
            device_control: PortBuilder::port(port_control_base).write_size(8).done(),
            drive_address: PortBuilder::port(port_control_base + 1).read_size(8).done(),
        }
    }
}

impl Bus {
    /// A bus at the given port bases, with the master selected.
    pub fn new(port_io_base: u16, port_control_base: u16) -> (r: Bus)
        requires
            port_io_base + 7 <= u16::MAX,
            port_control_base + 1 <= u16::MAX,
        ensures
            r.selected_drive == DriveId::Master,
            r.registers.data.port == port_io_base,
            r.registers.alt_status.port == port_control_base,
    {
        Bus { registers: Registers::new(port_io_base, port_control_base), selected_drive: DriveId::Master }
    }

    /// Selects `drive`, given the drive register's current value: the value
    /// to write to it, or `None` when the drive is selected already.
    pub fn select_drive(&mut self, drive: DriveId, current: u8) -> (r: Option<u8>)
        ensures
            final(self).selected_drive == drive,
            old(self).selected_drive == drive ==> r is None,
            old(self).selected_drive != drive ==> r == Some(spec_select_value(current, drive)),
    {
        if drive != self.selected_drive {
            let slave: u8 = match drive {
                DriveId::Slave => 1,
                DriveId::Master => 0,
            };
            let val = (current & !(1u8 << 4u8)) | (slave << 4u8);
            self.selected_drive = drive;
            Some(val)
        } else {
            None
        }
    }

    /// The register values that address `lba`: its three low bytes, and the
    /// drive register with its low four bits replaced by bits 24 to 27 of
    /// the LBA.  Bits 28 to 31 must be clear.
    pub fn set_lba(lba: u32, drive_reg: u8) -> (r: (u8, u8, u8, u8))
        requires
            lba & (0xFu32 << 27u32) == 0,
        ensures
            r.0 == lba as u8,
            r.1 == (lba >> 8u32) as u8,
            r.2 == (lba >> 16u32) as u8,
            r.3 == (drive_reg & !0xFu8) | (((lba >> 24u32) as u8) & 0xFu8),
    {
        let lba_24 = (lba >> 24u32) as u8;
        (lba as u8, (lba >> 8u32) as u8, (lba >> 16u32) as u8, (drive_reg & !0xFu8) | (lba_24 & 0xFu8))
    }
}

/// What the status after an IDENTIFY command tells of a drive.
#[derive(Clone, Copy, Debug, PartialEq, Eq, Structural)]
pub enum IdentifyStatus {
    /// The status is zero: there is no drive.
    Absent,
    /// The command was aborted.
    Aborted,
    /// An ATAPI or SATA drive answered, which is not supported.
    NotAta,
    /// An ATA drive is there; its identify data can be read once it is
    /// ready.
    Present,
}

/// Why a drive's status stops a transfer.
#[derive(Clone, Copy, Debug, PartialEq, Eq, Structural)]
pub enum StatusErr {
    /// DF: the drive reports a fault.
    DriveFault,
    /// ERR: the error register tells more.
    Error,
}

/// Bit `i` of a status register value.
pub open spec fn status_bit(status: u8, i: u8) -> bool {
    (status >> i) & 1u8 != 0
}

/// The outcome of IDENTIFY from the alternate status read right after the
/// command and, when ERR is set there, the two LBA registers that an ATAPI
/// or SATA drive sets.
pub fn identify_status(status: u8, lba_8: u8, lba_16: u8) -> (r: IdentifyStatus)
    ensures
        r == if status == 0 {
            IdentifyStatus::Absent
        } else if status & 1 != 0 {
            if lba_8 == 0 && lba_16 == 0 {
                IdentifyStatus::Aborted
            } else {
                IdentifyStatus::NotAta
            }
        } else {
            IdentifyStatus::Present
        },
{
    if status == 0 {
        IdentifyStatus::Absent
    } else if status & 1 != 0 {
        if lba_8 == 0 && lba_16 == 0 {
            IdentifyStatus::Aborted
        } else {
            IdentifyStatus::NotAta
        }
    } else {
        IdentifyStatus::Present
    }
}

/// BSY: the drive is busy and its other status bits mean nothing yet.
pub fn is_busy(status: u8) -> (r: bool)
    ensures
        r == status_bit(status, 7),
{
    (status >> 7u8) & 1 != 0
}

/// DRQ: the drive has data to hand over or wants data.
pub fn data_requested(status: u8) -> (r: bool)
    ensures
        r == status_bit(status, 3),
{
    (status >> 3u8) & 1 != 0
}

/// Checks a status read once the drive is no longer busy: a drive fault
/// first, then an error.
pub fn check_status(status: u8) -> (r: Result<(), StatusErr>)
    ensures
        r == if status_bit(status, 5) {
            Err::<(), StatusErr>(StatusErr::DriveFault)
        } else if status_bit(status, 0) {
            Err::<(), StatusErr>(StatusErr::Error)
        } else {
            Ok::<(), StatusErr>(())
        },
{
    if (status >> 5u8) & 1 != 0 {
        Err(StatusErr::DriveFault)
    } else if (status >> 0u8) & 1 != 0 {
        Err(StatusErr::Error)
    } else {
        Ok(())
    }
}

/// The drive that identify data describes, when it can be used: drives
/// without 28-bit LBA addressing are ignored.
pub fn usable_drive(id: DriveId, data: &[u16]) -> (r: Option<Drive>)
    requires
        data@.len() == 256,
    ensures
        r is Some <==> ((data@[61] as u32) << 16u32) | data@[60] as u32 != 0,
        r matches Some(d) ==> {
            &&& d.id == id
            &&& d.supports_lba48 == (data@[83] & (1u16 << 10u16) != 0)
            &&& d.num_sectors_lba28 == ((data@[61] as u32) << 16u32) | data@[60] as u32
            &&& d.num_sectors_lba48 == ((data@[103] as u64) << 48u64) | ((data@[102] as u64) << 32u64) | ((
            data@[101] as u64) << 16u64) | data@[100] as u64
        },
{
    let d = Drive::from_identify_data(id, data);
    if d.num_sectors_lba28 != 0 {
        Some(d)
    } else {
        None
    }
}

/// Word `i` of a little-endian byte sequence.
pub open spec fn le_word(b: Seq<u8>, i: int) -> u16 {
    (b[2 * i] as u16) | ((b[2 * i + 1] as u16) << 8u16)
}

/// The words that bytes read from or written to the data port make up, two
/// bytes each, low byte first.
pub fn slice_u8_to_u16(from: &[u8]) -> (r: Vec<u16>)
    requires
        from@.len() % 2 == 0,
    ensures
        r@.len() == from@.len() / 2,
        forall|i: int| 0 <= i < r@.len() ==> #[trigger] r@[i] == le_word(from@, i),
{
    let len = from.len();
    let n = len / 2;
    let mut words: Vec<u16> = Vec::new();
    let mut i: usize = 0;
    while i < n
        invariant
            len == from@.len(),
            n == from@.len() / 2,
            from@.len() % 2 == 0,
            i <= n,
            words@.len() == i,
            forall|k: int| 0 <= k < i ==> #[trigger] words@[k] == le_word(from@, k),
        decreases n - i,
    {
        assert(i + i + 1 < len) by (nonlinear_arith)
            requires
                i < n,
                n == len / 2,
                len % 2 == 0,
        ;
        let j = i + i;
        words.push((from[j] as u16) | ((from[j + 1] as u16) << 8u16));
        i = i + 1;
    }
    words
}

/// The bytes of words read from the data port, low byte first.
pub fn boxed_slice_u16_to_u8(from: &[u16]) -> (r: Vec<u8>)
    requires
        2 * from@.len() <= usize::MAX,
    ensures
        r@.len() == 2 * from@.len(),
        forall|i: int| 0 <= i < from@.len() ==> #[trigger] r@[2 * i] == from@[i] as u8 && r@[2 * i + 1] == (
        from@[i] >> 8u16) as u8,
{
    let mut bytes: Vec<u8> = Vec::new();
    let mut i: usize = 0;
    while i < from.len()
        invariant
            i <= from@.len(),
            2 * from@.len() <= usize::MAX,
            bytes@.len() == 2 * i,
            forall|k: int| 0 <= k < i ==> #[trigger] bytes@[2 * k] == from@[k] as u8 && bytes@[2 * k + 1] == (
            from@[k] >> 8u16) as u8,
        decreases from@.len() - i,
    {
        let w = from[i];
        let ghost before = bytes@;
        bytes.push(w as u8);
        bytes.push((w >> 8u16) as u8);
        proof {
            assert forall|k: int| 0 <= k < i + 1 implies #[trigger] bytes@[2 * k] == from@[k] as u8 && bytes@[2
                * k + 1] == (from@[k] >> 8u16) as u8 by {
                if k < i {
                    assert(bytes@[2 * k] == before[2 * k]);
                    assert(bytes@[2 * k + 1] == before[2 * k + 1]);
                }
            }
        }
        i = i + 1;
    }
    bytes
}

/// Splitting a word into its bytes and joining them again gives the word
/// back, and joining two bytes into a word and splitting it gives them
/// back.
pub proof fn lemma_word_bytes_roundtrip(w: u16, lo: u8, hi: u8)
    ensures
        ((w as u8) as u16) | ((((w >> 8u16) as u8) as u16) << 8u16) == w,
        (((lo as u16) | ((hi as u16) << 8u16)) as u8) == lo,
        ((((lo as u16) | ((hi as u16) << 8u16)) >> 8u16) as u8) == hi,
{
    assert(((w as u8) as u16) | ((((w >> 8u16) as u8) as u16) << 8u16) == w && (((lo as u16) | ((
    hi as u16) << 8u16)) as u8) == lo && ((((lo as u16) | ((hi as u16) << 8u16)) >> 8u16) as u8)
        == hi) by (bit_vector);
}

} // verus!
