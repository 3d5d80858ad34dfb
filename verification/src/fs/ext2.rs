use vstd::prelude::*;

use crate::bits::{read_u16_le, read_u32_le, u16_at, u32_at};
use vstd::utf8::valid_utf8;

use super::{DirEntryContent, ReadDirErr};
use super::vfs::DirListing;

verus! {

/// The signature of an ext2 superblock.
pub const EXT2_SIGNATURE: u16 = 0xEF53;

/// Size in bytes of the superblock.
pub const SUPERBLOCK_SIZE: usize = 1024;

/// Size in bytes of a block group descriptor.
pub const BGD_SIZE: usize = 32;

/// Size in bytes of an inode as the kernel reads it.
pub const INODE_SIZE: usize = 128;

/// The required feature this kernel supports: directory entries with a type.
pub const REQUIRED_DIRS_WITH_TYPE: u32 = 0x02;

/// The read-only feature this kernel supports: 64-bit file sizes.
pub const READ_ONLY_FILE_SIZE_64BIT: u32 = 0x02;

/// A block group descriptor, as far as the kernel reads it.
#[derive(Clone, Copy, Debug, PartialEq, Eq, Structural)]
pub struct BlockGroupDescriptor {
    pub block_usage_bitmap_block_addr: u32,
    pub inode_usage_bitmap_block_addr: u32,
    pub inode_table_start_block_addr: u32,
    pub num_unalloc_blocks: u16,
    pub num_unalloc_inodes: u16,
    pub num_dirs: u16,
}

/// A mounted ext2 file system: what the superblock and the block group
/// descriptor table say.
pub struct Ext2 {
    pub version: (u32, u16),
    pub optional_features: u32,
    pub required_features: u32,
    pub read_only_features: u32,
    pub total_num_blocks: u32,
    pub block_size: usize,
    pub inode_size: u16,
    pub block_group_num_blocks: u32,
    pub block_group_num_inodes: u32,
    pub bgd_table: Vec<BlockGroupDescriptor>,
    pub read_only: bool,
}

/// Why an ext2 file system cannot be used: it requires features, given as
/// their bit mask, that the kernel does not support.
#[derive(Clone, Copy, Debug, PartialEq, Eq, Structural)]
pub enum FromRawErr {
    NoRequiredFeatures(u32),
}

/// 2 to the power `n`.
pub open spec fn pow2(n: nat) -> nat
    decreases n,
{
    if n == 0 {
        1
    } else {
        2 * pow2((n - 1) as nat)
    }
}

/// The superblock fields the kernel reads.
pub open spec fn sb_total_num_blocks(sb: Seq<u8>) -> u32 {
    u32_at(sb, 4)
}

pub open spec fn sb_log_block_size(sb: Seq<u8>) -> u32 {
    u32_at(sb, 24)
}

pub open spec fn sb_block_group_num_blocks(sb: Seq<u8>) -> u32 {
    u32_at(sb, 32)
}

pub open spec fn sb_block_group_num_inodes(sb: Seq<u8>) -> u32 {
    u32_at(sb, 40)
}

pub open spec fn sb_signature(sb: Seq<u8>) -> u16 {
    u16_at(sb, 56)
}

pub open spec fn sb_version_minor(sb: Seq<u8>) -> u16 {
    u16_at(sb, 62)
}

pub open spec fn sb_version_major(sb: Seq<u8>) -> u32 {
    u32_at(sb, 76)
}

/// Fields of the extended superblock, present from major version 1 on.
pub open spec fn sb_inode_size(sb: Seq<u8>) -> u16 {
    u16_at(sb, 88)
}

pub open spec fn sb_optional_features(sb: Seq<u8>) -> u32 {
    u32_at(sb, 92)
}

pub open spec fn sb_required_features(sb: Seq<u8>) -> u32 {
    u32_at(sb, 96)
}

pub open spec fn sb_read_only_features(sb: Seq<u8>) -> u32 {
    u32_at(sb, 100)
}

/// The block size of the file system: 1024 shifted left by the logarithm
/// stored in the superblock.
pub open spec fn spec_block_size(log: u32) -> nat {
    1024 * pow2(log as nat)
}

/// The number of block groups: one more than the number of whole groups of
/// `block_group_num_blocks` blocks; one when there are no blocks at all.
pub open spec fn spec_num_block_groups(total: u32, per_group: u32) -> nat {
    if per_group == 0 {
        1
    } else {
        (total / per_group + 1) as nat
    }
}

/// The block group descriptor at `at`.
pub open spec fn spec_bgd(b: Seq<u8>, at: int) -> BlockGroupDescriptor {
    BlockGroupDescriptor {
        block_usage_bitmap_block_addr: u32_at(b, at),
        inode_usage_bitmap_block_addr: u32_at(b, at + 4),
        inode_table_start_block_addr: u32_at(b, at + 8),
        num_unalloc_blocks: u16_at(b, at + 12),
        num_unalloc_inodes: u16_at(b, at + 14),
        num_dirs: u16_at(b, at + 16),
    }
}

/// The superblock can be read: it is a superblock of ext2 whose block size
/// fits in 32 bits and whose block count fits its groups.
pub open spec fn superblock_usable(sb: Seq<u8>) -> bool {
    &&& sb.len() == SUPERBLOCK_SIZE
    &&& sb_signature(sb) == EXT2_SIGNATURE
    &&& sb_log_block_size(sb) <= 21
    &&& (sb_block_group_num_blocks(sb) != 0 || sb_total_num_blocks(sb) == 0)
}

impl BlockGroupDescriptor {
    pub fn from_bytes(b: &[u8], at: usize) -> (r: BlockGroupDescriptor)
        requires
            at + BGD_SIZE <= b@.len(),
        ensures
            r == spec_bgd(b@, at as int),
    {
        let _len = b.len();
        BlockGroupDescriptor {
            block_usage_bitmap_block_addr: read_u32_le(b, at),
            inode_usage_bitmap_block_addr: read_u32_le(b, at + 4),
            inode_table_start_block_addr: read_u32_le(b, at + 8),
            num_unalloc_blocks: read_u16_le(b, at + 12),
            num_unalloc_inodes: read_u16_le(b, at + 14),
            num_dirs: read_u16_le(b, at + 16),
        }
    }
}

/// The block size for the logarithm `log` (at most 21).
pub fn block_size_of(log: u32) -> (r: usize)
    requires
        log <= 21,
    ensures
        r == spec_block_size(log),
        1024 <= r <= 1024 * 0x20_0000,
{
    let mut r: usize = 1024;
    let mut i: u32 = 0;
    while i < log
        invariant
            i <= log <= 21,
            r == 1024 * pow2(i as nat),
            1024 <= r <= 1024 * 0x20_0000,
        decreases log - i,
    {
        proof {
            lemma_pow2_bound(i as nat);
        }
        r = r * 2;
        i = i + 1;
    }
    r
}

proof fn lemma_pow2_le(m: nat, n: nat)
    requires
        m <= n,
    ensures
        pow2(m) <= pow2(n),
    decreases n,
{
    if m < n {
        lemma_pow2_le(m, (n - 1) as nat);
    }
}

proof fn lemma_pow2_bound(n: nat)
    requires
        n <= 21,
    ensures
        pow2(n) <= 0x20_0000,
        n < 21 ==> 2 * pow2(n) <= 0x20_0000,
{
    assert(pow2(21) == 0x20_0000) by {
        reveal_with_fuel(pow2, 22);
    }
    lemma_pow2_le(n, 21);
    if n < 21 {
        lemma_pow2_le(n + 1, 21);
    }
}

/// How many block groups the file system has.
pub fn num_block_groups(total: u32, per_group: u32) -> (r: usize)
    requires
        spec_num_block_groups(total, per_group) <= usize::MAX,
    ensures
        r == spec_num_block_groups(total, per_group),
{
    if per_group == 0 {
        1
    } else {
        (total / per_group) as usize + 1
    }
}

impl Ext2 {
    /// Reads the file system from its superblock and its block group
    /// descriptor table.  From major version 1 on, the features it requires
    /// beyond typed directory entries make it unusable, and read-only
    /// features other than 64-bit file sizes make it read-only.
    pub fn from_raw(raw_superblock: &[u8], raw_block_group_descriptor: &[u8]) -> (r: Result<Ext2, FromRawErr>)
        requires
            superblock_usable(raw_superblock@),
            raw_block_group_descriptor@.len() != 0,
            spec_num_block_groups(sb_total_num_blocks(raw_superblock@), sb_block_group_num_blocks(raw_superblock@))
                * BGD_SIZE <= raw_block_group_descriptor@.len(),
        ensures
            ({
                let sb = raw_superblock@;
                let v1 = sb_version_major(sb) >= 1;
                let absent_required = sb_required_features(sb) & !REQUIRED_DIRS_WITH_TYPE;
                if v1 && absent_required != 0 {
                    r == Err::<Ext2, FromRawErr>(FromRawErr::NoRequiredFeatures(absent_required))
                } else {
                    r matches Ok(fs) && {
                        &&& fs.version == (sb_version_major(sb), sb_version_minor(sb))
                        &&& fs.optional_features == (if v1 { sb_optional_features(sb) } else { 0 })
                        &&& fs.required_features == (if v1 { sb_required_features(sb) } else { 0 })
                        &&& fs.read_only_features == (if v1 { sb_read_only_features(sb) } else { 0 })
                        &&& fs.read_only == (v1 && sb_read_only_features(sb) & !READ_ONLY_FILE_SIZE_64BIT != 0)
                        &&& fs.total_num_blocks == sb_total_num_blocks(sb)
                        &&& fs.block_size == spec_block_size(sb_log_block_size(sb))
                        &&& fs.inode_size == (if v1 { sb_inode_size(sb) } else { 128 })
                        &&& fs.block_group_num_blocks == sb_block_group_num_blocks(sb)
                        &&& fs.block_group_num_inodes == sb_block_group_num_inodes(sb)
                        &&& fs.bgd_table@.len() == spec_num_block_groups(
                            sb_total_num_blocks(sb),
                            sb_block_group_num_blocks(sb),
                        )
                        &&& forall|i: int|
                            0 <= i < fs.bgd_table@.len() ==> #[trigger] fs.bgd_table@[i] == spec_bgd(
                                raw_block_group_descriptor@,
                                i * BGD_SIZE,
                            )
                    }
                }
            }),
    {
        let sb = raw_superblock;
        let version_major = read_u32_le(sb, 76);
        let version_minor = read_u16_le(sb, 62);
        let v1 = version_major >= 1;
        let optional_features = if v1 {
            read_u32_le(sb, 92)
        } else {
            0
        };
        let required_features = if v1 {
            read_u32_le(sb, 96)
        } else {
            0
        };
        if v1 {
            let absent = required_features & !REQUIRED_DIRS_WITH_TYPE;
            if absent != 0 {
                return Err(FromRawErr::NoRequiredFeatures(absent));
            }
        }
        let read_only_features = if v1 {
            read_u32_le(sb, 100)
        } else {
            0
        };
        let read_only = v1 && read_only_features & !READ_ONLY_FILE_SIZE_64BIT != 0;
        let total_num_blocks = read_u32_le(sb, 4);
        let block_size = block_size_of(read_u32_le(sb, 24));
        let inode_size = if v1 {
            read_u16_le(sb, 88)
        } else {
            128
        };
        let block_group_num_blocks = read_u32_le(sb, 32);
        let block_group_num_inodes = read_u32_le(sb, 40);
        let bgd = raw_block_group_descriptor;
        let bgd_len = bgd.len();
        let num_groups = num_block_groups(total_num_blocks, block_group_num_blocks);
        let mut bgd_table: Vec<BlockGroupDescriptor> = Vec::new();
        let mut i: usize = 0;
        while i < num_groups
            invariant
                bgd_len == bgd@.len(),
                i <= num_groups,
                num_groups * BGD_SIZE <= bgd@.len(),
                bgd_table@.len() == i,
                forall|k: int| 0 <= k < i ==> #[trigger] bgd_table@[k] == spec_bgd(bgd@, k * BGD_SIZE),
            decreases num_groups - i,
        {
            assert(i * BGD_SIZE + BGD_SIZE <= num_groups * BGD_SIZE) by (nonlinear_arith)
                requires
                    i < num_groups,
            ;
            bgd_table.push(BlockGroupDescriptor::from_bytes(bgd, i * BGD_SIZE));
            i = i + 1;
        }
        Ok(
            Ext2 {
                version: (version_major, version_minor),
                optional_features,
                required_features,
                read_only_features,
                total_num_blocks,
                block_size,
                inode_size,
                block_group_num_blocks,
                block_group_num_inodes,
                bgd_table,
                read_only,
            },
        )
    }
}

/// Types of inodes, by the top four bits of the type and permissions field.
#[derive(Clone, Copy, Debug, PartialEq, Eq, Structural)]
pub enum InodeType {
    Fifo,
    CharDevice,
    Dir,
    BlockDevice,
    RegularFile,
    SymbolicLink,
    UnixSocket,
}

pub open spec fn spec_inode_type(raw: u16) -> Option<InodeType> {
    if raw == 0x1 {
        Some(InodeType::Fifo)
    } else if raw == 0x2 {
        Some(InodeType::CharDevice)
    } else if raw == 0x4 {
        Some(InodeType::Dir)
    } else if raw == 0x6 {
        Some(InodeType::BlockDevice)
    } else if raw == 0x8 {
        Some(InodeType::RegularFile)
    } else if raw == 0xA {
        Some(InodeType::SymbolicLink)
    } else if raw == 0xC {
        Some(InodeType::UnixSocket)
    } else {
        None
    }
}

impl InodeType {
    pub fn try_from(raw: u16) -> (r: Result<InodeType, ()>)
        ensures
            match spec_inode_type(raw) {
                Some(t) => r == Ok::<InodeType, ()>(t),
                None => r is Err,
            },
    {
        match raw {
            0x1 => Ok(InodeType::Fifo),
            0x2 => Ok(InodeType::CharDevice),
            0x4 => Ok(InodeType::Dir),
            0x6 => Ok(InodeType::BlockDevice),
            0x8 => Ok(InodeType::RegularFile),
            0xA => Ok(InodeType::SymbolicLink),
            0xC => Ok(InodeType::UnixSocket),
            _ => Err(()),
        }
    }

    /// Regular files and directories are told apart; the rest is unknown.
    pub fn content(self) -> (r: DirEntryContent)
        ensures
            r == (match self {
                InodeType::RegularFile => DirEntryContent::RegularFile,
                InodeType::Dir => DirEntryContent::Directory,
                _ => DirEntryContent::Unknown,
            }),
    {
        match self {
            InodeType::RegularFile => DirEntryContent::RegularFile,
            InodeType::Dir => DirEntryContent::Directory,
            _ => DirEntryContent::Unknown,
        }
    }
}

/// Types of directory entries.
#[derive(Clone, Copy, Debug, PartialEq, Eq, Structural)]
pub enum DirEntryType {
    Unknown,
    RegularFile,
    Dir,
    CharDevice,
    BlockDevice,
    Fifo,
    Socket,
    SymbolicLink,
}

pub open spec fn spec_dir_entry_type(raw: u8) -> Option<DirEntryType> {
    if raw == 0 {
        Some(DirEntryType::Unknown)
    } else if raw == 1 {
        Some(DirEntryType::RegularFile)
    } else if raw == 2 {
        Some(DirEntryType::Dir)
    } else if raw == 3 {
        Some(DirEntryType::CharDevice)
    } else if raw == 4 {
        Some(DirEntryType::BlockDevice)
    } else if raw == 5 {
        Some(DirEntryType::Fifo)
    } else if raw == 6 {
        Some(DirEntryType::Socket)
    } else if raw == 7 {
        Some(DirEntryType::SymbolicLink)
    } else {
        None
    }
}

impl DirEntryType {
    pub fn try_from(raw: u8) -> (r: Result<DirEntryType, ()>)
        ensures
            match spec_dir_entry_type(raw) {
                Some(t) => r == Ok::<DirEntryType, ()>(t),
                None => r is Err,
            },
    {
        match raw {
            0 => Ok(DirEntryType::Unknown),
            1 => Ok(DirEntryType::RegularFile),
            2 => Ok(DirEntryType::Dir),
            3 => Ok(DirEntryType::CharDevice),
            4 => Ok(DirEntryType::BlockDevice),
            5 => Ok(DirEntryType::Fifo),
            6 => Ok(DirEntryType::Socket),
            7 => Ok(DirEntryType::SymbolicLink),
            _ => Err(()),
        }
    }

    /// Regular files and directories are told apart; the rest is unknown.
    pub fn content(self) -> (r: DirEntryContent)
        ensures
            r == (match self {
                DirEntryType::RegularFile => DirEntryContent::RegularFile,
                DirEntryType::Dir => DirEntryContent::Directory,
                _ => DirEntryContent::Unknown,
            }),
    {
        match self {
            DirEntryType::RegularFile => DirEntryContent::RegularFile,
            DirEntryType::Dir => DirEntryContent::Directory,
            _ => DirEntryContent::Unknown,
        }
    }
}

/// An inode, as far as the kernel reads it.
#[derive(Clone, Copy, Debug)]
pub struct Inode {
    pub type_and_permissions: u16,
    pub user_id: u16,
    pub size: u32,
    pub count_hard_links: u16,
    pub count_disk_sectors: u32,
    pub flags: u32,
    pub direct_block_ptrs: [u32; 12],
    pub singly_indirect_block_ptr: u32,
    pub doubly_indirect_block_ptr: u32,
    pub triply_indirect_block_ptr: u32,
    pub file_size_bits_32_63: u32,
}

/// The inode at `at`.
pub open spec fn inode_at(b: Seq<u8>, at: int, i: Inode) -> bool {
    &&& i.type_and_permissions == u16_at(b, at)
    &&& i.user_id == u16_at(b, at + 2)
    &&& i.size == u32_at(b, at + 4)
    &&& i.count_hard_links == u16_at(b, at + 26)
    &&& i.count_disk_sectors == u32_at(b, at + 28)
    &&& i.flags == u32_at(b, at + 32)
    &&& forall|k: int| 0 <= k < 12 ==> #[trigger] i.direct_block_ptrs@[k] == u32_at(b, at + 40 + 4 * k)
    &&& i.singly_indirect_block_ptr == u32_at(b, at + 88)
    &&& i.doubly_indirect_block_ptr == u32_at(b, at + 92)
    &&& i.triply_indirect_block_ptr == u32_at(b, at + 96)
    &&& i.file_size_bits_32_63 == u32_at(b, at + 108)
}

impl Inode {
    pub fn from_bytes(b: &[u8], at: usize) -> (r: Inode)
        requires
            at + INODE_SIZE <= b@.len(),
        ensures
            inode_at(b@, at as int, r),
    {
        let len = b.len();
        let mut ptrs = [0u32; 12];
        let mut k: usize = 0;
        while k < 12
            invariant
                len == b@.len(),
                k <= 12,
                at + INODE_SIZE <= b@.len(),
                forall|j: int| 0 <= j < k ==> #[trigger] ptrs@[j] == u32_at(b@, at + 40 + 4 * j),
            decreases 12 - k,
        {
            ptrs[k] = read_u32_le(b, at + 40 + 4 * k);
            k = k + 1;
        }
        Inode {
            type_and_permissions: read_u16_le(b, at),
            user_id: read_u16_le(b, at + 2),
            size: read_u32_le(b, at + 4),
            count_hard_links: read_u16_le(b, at + 26),
            count_disk_sectors: read_u32_le(b, at + 28),
            flags: read_u32_le(b, at + 32),
            direct_block_ptrs: ptrs,
            singly_indirect_block_ptr: read_u32_le(b, at + 88),
            doubly_indirect_block_ptr: read_u32_le(b, at + 92),
            triply_indirect_block_ptr: read_u32_le(b, at + 96),
            file_size_bits_32_63: read_u32_le(b, at + 108),
        }
    }

    /// The type code: the top four bits of the type and permissions field.
    pub open spec fn spec_type_code(&self) -> u16 {
        (self.type_and_permissions >> 12u16) & 0xFu16
    }

    /// The inode's type, which must be a known one.
    pub fn _type(&self) -> (r: InodeType)
        requires
            spec_inode_type(self.spec_type_code()) is Some,
        ensures
            spec_inode_type(self.spec_type_code()) == Some(r),
    {
        let raw = (self.type_and_permissions >> 12u16) & 0xFu16;
        match InodeType::try_from(raw) {
            Ok(t) => t,
            Err(_) => InodeType::Fifo,
        }
    }

    /// The twelve direct block pointers.
    pub fn direct_block_ptrs(&self) -> (r: [u32; 12])
        ensures
            r@ == self.direct_block_ptrs@,
    {
        self.direct_block_ptrs
    }
}

/// Where an inode lies on disk: its byte address, from its group's inode
/// table, its index in the group and the inode size.
pub open spec fn spec_inode_addr(fs: &Ext2, inode_idx: u32) -> int {
    let bs = fs.block_size as int;
    let isz = fs.inode_size as int;
    let group = (inode_idx - 1) / (fs.block_group_num_inodes as int);
    let in_group = (inode_idx - 1) % (fs.block_group_num_inodes as int);
    let rel = (in_group * isz) / bs;
    let abs = fs.bgd_table@[group].inode_table_start_block_addr + rel;
    abs * bs + (in_group * isz) % bs
}

/// The inode address can be computed in 32 bits.
pub open spec fn inode_addr_fits(fs: &Ext2, inode_idx: u32) -> bool {
    let bs = fs.block_size as int;
    let isz = fs.inode_size as int;
    let group = (inode_idx - 1) / (fs.block_group_num_inodes as int);
    let in_group = (inode_idx - 1) % (fs.block_group_num_inodes as int);
    let rel = (in_group * isz) / bs;
    &&& inode_idx > 0
    &&& fs.block_group_num_inodes > 0
    &&& 0 < bs <= u32::MAX
    &&& group < fs.bgd_table@.len()
    &&& in_group * isz <= u32::MAX
    &&& fs.bgd_table@[group].inode_table_start_block_addr + rel <= u32::MAX
    &&& (fs.bgd_table@[group].inode_table_start_block_addr + rel) * bs + (in_group * isz) % bs <= u32::MAX
}

/// Which block holds the `index`-th block of a file: a direct pointer, or
/// an entry of the singly indirect block.
#[derive(Clone, Copy, Debug, PartialEq, Eq, Structural)]
pub enum InodeBlock {
    Direct { block_num: usize },
    SinglyIndirect { table_block: usize, entry: usize },
}

/// Why a block could not be read.
#[derive(Clone, Copy, Debug, PartialEq, Eq, Structural)]
pub enum ReadBlockErr {
    NoRwInterface,
    DiskErr,
    InvalidBlockNum,
}

/// Entry `i` of a block of 32-bit block numbers.
pub open spec fn block_entry(b: Seq<u8>, i: int) -> u32 {
    u32_at(b, 4 * i)
}

/// Index of the first zero among the `n` 32-bit entries of `b`, or `n`.
pub open spec fn first_zero_entry(b: Seq<u8>, n: int) -> int {
    if exists|i: int| 0 <= i < n && #[trigger] block_entry(b, i) == 0 {
        choose|i: int|
            0 <= i < n && #[trigger] block_entry(b, i) == 0 && forall|k: int| 0 <= k < i ==> #[trigger] block_entry(b, k) != 0
    } else {
        n
    }
}

/// A raw directory entry: the inode it names, where its name is and how long
/// it is, and its type byte.
#[derive(Clone, Copy, Debug, PartialEq, Eq, Structural)]
pub struct RawDirEntry {
    pub inode: u32,
    pub name_at: usize,
    pub name_len: usize,
    pub type_byte: u8,
}

/// `r` with `p` in front of its entries.
pub open spec fn prepend(p: Seq<RawDirEntry>, r: Result<Seq<RawDirEntry>, ReadDirErr>) -> Result<Seq<RawDirEntry>, ReadDirErr> {
    match r {
        Ok(rest) => Ok(p + rest),
        Err(e) => Err(e),
    }
}

/// `x` rounded up to a multiple of 4.
pub open spec fn align4(x: int) -> int {
    (x + 3) / 4 * 4
}

/// The directory entry at `o`.
pub open spec fn spec_raw_entry(b: Seq<u8>, o: int, dirs_with_type: bool) -> RawDirEntry {
    let low = b[o + 6] as usize;
    let high = b[o + 7] as usize;
    RawDirEntry {
        inode: u32_at(b, o),
        name_at: (o + 8) as usize,
        name_len: if dirs_with_type { low } else { (low + high * 256) as usize },
        type_byte: b[o + 7],
    }
}

/// The entries of a directory whose contents are the first `total` bytes of
/// `b`, after the one at `o`: each entry starts where the previous one ends,
/// rounded up to 4 bytes, and the walk stops at `total`.  An entry of size
/// zero, or one whose header or name lies past `b`, makes the directory
/// invalid.
pub open spec fn spec_dir_walk(b: Seq<u8>, total: int, dirs_with_type: bool, o: int) -> Result<Seq<RawDirEntry>, ReadDirErr>
    decreases total - o,
{
    if o < 0 || o + 8 > b.len() {
        Err(ReadDirErr::InvalidDescriptor)
    } else {
        let size = u16_at(b, o + 4);
        let next = align4(o + size);
        if size == 0 {
            Err(ReadDirErr::InvalidDescriptor)
        } else if next >= total {
            Ok(Seq::empty())
        } else if next + 8 > b.len() {
            Err(ReadDirErr::InvalidDescriptor)
        } else {
            let e = spec_raw_entry(b, next, dirs_with_type);
            if e.name_at + e.name_len > b.len() {
                Err(ReadDirErr::InvalidDescriptor)
            } else {
                match spec_dir_walk(b, total, dirs_with_type, next) {
                    Err(err) => Err(err),
                    Ok(rest) => Ok(seq![e] + rest),
                }
            }
        }
    }
}

impl Ext2 {
    /// The address on disk of inode `inode_idx`.
    pub fn inode_addr(&self, inode_idx: u32) -> (r: usize)
        requires
            inode_addr_fits(self, inode_idx),
        ensures
            r == spec_inode_addr(self, inode_idx),
    {
        let block_size = self.block_size as u32;
        let inode_size = self.inode_size as u32;
        let block_group = (inode_idx - 1) / self.block_group_num_inodes;
        let idx_in_group = (inode_idx - 1) % self.block_group_num_inodes;
        let rel_block_with_inode = (idx_in_group * inode_size) / block_size;
        let abs_block_with_inode = self.bgd_table[block_group as usize].inode_table_start_block_addr
            + rel_block_with_inode;
        let inode_addr = abs_block_with_inode * block_size + (idx_in_group * inode_size) % block_size;
        inode_addr as usize
    }

    /// Where to read inode `inode_idx` with sectors of `sector_size` bytes:
    /// the first sector, the number of sectors, and the offset of the inode
    /// in them.
    pub fn inode_location(&self, inode_idx: u32, sector_size: usize) -> (r: (usize, usize, usize))
        requires
            inode_addr_fits(self, inode_idx),
            sector_size > 0,
        ensures
            r.0 == spec_inode_addr(self, inode_idx) / sector_size as int,
            r.1 == INODE_SIZE / sector_size + 1,
            r.2 == spec_inode_addr(self, inode_idx) % sector_size as int,
    {
        let addr = self.inode_addr(inode_idx);
        (addr / sector_size, INODE_SIZE / sector_size + 1, addr % sector_size)
    }

    /// Which block holds the `index`-th block of the file of `inode`.
    /// Only direct blocks and those of the singly indirect block are read,
    /// and the singly indirect block must exist when it is needed.
    pub fn locate_inode_block(&self, inode: &Inode, index: usize) -> (r: InodeBlock)
        requires
            index < 12 + self.block_size / 4,
            index >= 12 ==> inode.singly_indirect_block_ptr != 0,
        ensures
            index < 12 ==> r == (InodeBlock::Direct { block_num: inode.direct_block_ptrs@[index as int] as usize }),
            index >= 12 ==> r == (InodeBlock::SinglyIndirect {
                table_block: inode.singly_indirect_block_ptr as usize,
                entry: (index - 12) as usize,
            }),
    {
        if index < 12 {
            InodeBlock::Direct { block_num: inode.direct_block_ptrs[index] as usize }
        } else {
            InodeBlock::SinglyIndirect {
                table_block: inode.singly_indirect_block_ptr as usize,
                entry: index - 12,
            }
        }
    }

    /// Where to read block `block_num` with sectors of `sector_size` bytes:
    /// the first sector and the number of sectors; a block number past the
    /// file system is refused.
    pub fn block_sectors(&self, block_num: usize, sector_size: usize) -> (r: Result<(usize, usize), ReadBlockErr>)
        requires
            sector_size > 0,
            self.block_size % sector_size == 0,
            block_num < self.total_num_blocks ==> block_num * self.block_size <= usize::MAX,
        ensures
            block_num >= self.total_num_blocks ==> r == Err::<(usize, usize), ReadBlockErr>(ReadBlockErr::InvalidBlockNum),
            block_num < self.total_num_blocks ==> r == Ok::<(usize, usize), ReadBlockErr>(
                (
                    ((block_num * self.block_size) / sector_size as int) as usize,
                    self.block_size / sector_size,
                ),
            ),
    {
        if block_num >= self.total_num_blocks as usize {
            return Err(ReadBlockErr::InvalidBlockNum);
        }
        let addr = block_num * self.block_size;
        Ok((addr / sector_size, self.block_size / sector_size))
    }

    /// The size in bytes of the file of `inode`; the high 32 bits count only
    /// when the file system has 64-bit file sizes.
    pub fn file_size_bytes(&self, inode: &Inode) -> (r: u64)
        ensures
            self.read_only_features & READ_ONLY_FILE_SIZE_64BIT != 0 ==> r == inode.size as u64 | ((
            inode.file_size_bits_32_63 as u64) << 32u64),
            self.read_only_features & READ_ONLY_FILE_SIZE_64BIT == 0 ==> r == inode.size as u64,
    {
        let mut size = inode.size as u64;
        if self.read_only_features & READ_ONLY_FILE_SIZE_64BIT != 0 {
            size = size | ((inode.file_size_bits_32_63 as u64) << 32u64);
        }
        size
    }

    /// The size in bytes of the inode's file as its 32-bit size field says.
    pub fn inode_size(&self, inode: &Inode) -> (r: usize)
        ensures
            r == inode.size,
    {
        inode.size as usize
    }
}

/// The number of leading non-zero 32-bit entries of a block of
/// `block_size` bytes.
pub fn num_block_entries(block: &[u8], block_size: usize) -> (r: usize)
    requires
        block_size / 4 * 4 <= block@.len(),
    ensures
        r == first_zero_entry(block@, (block_size / 4) as int),
{
    let _len = block.len();
    let n = block_size / 4;
    let mut i: usize = 0;
    while i < n
        invariant
            i <= n,
            n == block_size / 4,
            4 * n <= block@.len(),
            forall|k: int| 0 <= k < i ==> #[trigger] block_entry(block@, k) != 0,
        decreases n - i,
    {
        if read_u32_le(block, 4 * i) == 0 {
            proof {
                assert(block_entry(block@, i as int) == 0);
                let c = choose|j: int|
                    0 <= j < n && #[trigger] block_entry(block@, j) == 0 && forall|k: int|
                        0 <= k < j ==> #[trigger] block_entry(block@, k) != 0;
                if c < i {
                    assert(block_entry(block@, c) != 0);
                } else if c > i {
                    assert(block_entry(block@, i as int) != 0);
                }
            }
            return i;
        }
        assert(block_entry(block@, i as int) != 0);
        i = i + 1;
    }
    i
}

/// Entry `entry_idx` of a block of 32-bit block numbers.
pub fn read_block_entry(block: &[u8], entry_idx: usize) -> (r: usize)
    requires
        entry_idx * 4 + 4 <= block@.len(),
    ensures
        r == u32_at(block@, entry_idx * 4),
{
    let _len = block.len();
    read_u32_le(block, entry_idx * 4) as usize
}

/// The name of directory entry `e`: its bytes in `b`.
pub open spec fn entry_name(b: Seq<u8>, e: RawDirEntry) -> Seq<u8> {
    b.subrange(e.name_at as int, e.name_at + e.name_len)
}

/// Regular files and directories are told apart; the rest is unknown.
pub open spec fn dir_entry_type_content(t: DirEntryType) -> DirEntryContent {
    match t {
        DirEntryType::RegularFile => DirEntryContent::RegularFile,
        DirEntryType::Dir => DirEntryContent::Directory,
        _ => DirEntryContent::Unknown,
    }
}

/// Regular files and directories are told apart; the rest is unknown.
pub open spec fn inode_type_content(t: InodeType) -> DirEntryContent {
    match t {
        InodeType::RegularFile => DirEntryContent::RegularFile,
        InodeType::Dir => DirEntryContent::Directory,
        _ => DirEntryContent::Unknown,
    }
}

/// What directory entry `raw` names: told by its type byte where the file
/// system keeps types in directory entries (the byte must then be a known
/// type), else by the type of its inode, `inode`, which the caller has
/// read (it must be a known type too).
pub fn entry_content(raw: &RawDirEntry, dirs_with_type: bool, inode: &Inode) -> (r: DirEntryContent)
    requires
        dirs_with_type ==> spec_dir_entry_type(raw.type_byte) is Some,
        !dirs_with_type ==> spec_inode_type(inode.spec_type_code()) is Some,
    ensures
        r == if dirs_with_type {
            dir_entry_type_content(spec_dir_entry_type(raw.type_byte)->Some_0)
        } else {
            inode_type_content(spec_inode_type(inode.spec_type_code())->Some_0)
        },
{
    if dirs_with_type {
        match DirEntryType::try_from(raw.type_byte) {
            Ok(t) => t.content(),
            Err(_) => DirEntryContent::Unknown,
        }
    } else {
        inode._type().content()
    }
}

/// Names the entries `raws` of a directory whose contents are `block`:
/// each becomes its inode, its name (its bytes in `block`) and what it
/// names, `contents`'s matching element.  Fails with an invalid name as
/// soon as a name is not valid UTF-8.
pub fn dir_listing(block: &[u8], raws: &[RawDirEntry], contents: &[DirEntryContent]) -> (r: Result<Vec<DirListing>, ReadDirErr>)
    requires
        raws@.len() == contents@.len(),
        forall|i: int| 0 <= i < raws@.len() ==> #[trigger] raws@[i].name_at + raws@[i].name_len <= block@.len(),
    ensures
        r is Ok <==> forall|i: int| 0 <= i < raws@.len() ==> valid_utf8(#[trigger] entry_name(block@, raws@[i])),
        r is Err ==> r == Err::<Vec<DirListing>, ReadDirErr>(ReadDirErr::InvalidName),
        r matches Ok(v) ==> v@.len() == raws@.len() && forall|i: int|
            0 <= i < raws@.len() ==> {
                &&& (#[trigger] v@[i]).0 == raws@[i].inode as usize
                &&& v@[i].1@ == entry_name(block@, raws@[i])
                &&& v@[i].2 == contents@[i]
            },
{
    let n = block.len();
    let mut out: Vec<DirListing> = Vec::new();
    let mut i: usize = 0;
    while i < raws.len()
        invariant
            n == block@.len(),
            i <= raws@.len(),
            raws@.len() == contents@.len(),
            forall|k: int| 0 <= k < raws@.len() ==> #[trigger] raws@[k].name_at + raws@[k].name_len <= block@.len(),
            forall|k: int| 0 <= k < i ==> valid_utf8(#[trigger] entry_name(block@, raws@[k])),
            out@.len() == i,
            forall|k: int|
                0 <= k < i ==> {
                    &&& (#[trigger] out@[k]).0 == raws@[k].inode as usize
                    &&& out@[k].1@ == entry_name(block@, raws@[k])
                    &&& out@[k].2 == contents@[k]
                },
        decreases raws@.len() - i,
    {
        let e = raws[i];
        assert(e.name_at + e.name_len <= block@.len());
        let name = &block[e.name_at..e.name_at + e.name_len];
        assert(name@ =~= entry_name(block@, e));
        match crate::ffi::cstr::str_from_utf8(name) {
            None => {
                return Err(ReadDirErr::InvalidName);
            },
            Some(_) => {},
        }
        let bytes = vstd::slice::slice_to_vec(name);
        out.push((e.inode as usize, bytes, contents[i]));
        i = i + 1;
    }
    Ok(out)
}

/// The name of directory `id` of a file system whose root directory is
/// inode 2, given its entries `entries` and, for a directory other than the
/// root, the entries of its parent: "/" for the root, else the name of the
/// parent's entry for `id`.  The first entry must be "..", and the parent
/// must list the directory.
pub fn dir_name(id: usize, entries: &[DirListing], parent_entries: &[DirListing]) -> (r: Vec<u8>)
    requires
        entries@.len() > 0,
        entries@[0].1@ == seq![0x2eu8, 0x2eu8],
        id != 2 ==> exists|k: int| 0 <= k < parent_entries@.len() && (#[trigger] parent_entries@[k]).0 == id,
    ensures
        id == 2 ==> r@ == seq![0x2fu8],
        id != 2 ==> exists|k: int|
            0 <= k < parent_entries@.len() && (#[trigger] parent_entries@[k]).0 == id && r@ == parent_entries@[k].1@ && forall|j: int|
                0 <= j < k ==> parent_entries@[j].0 != id,
{
    if id == 2 {
        let mut root: Vec<u8> = Vec::new();
        root.push(0x2f);
        assert(root@ =~= seq![0x2fu8]);
        return root;
    }
    let mut k: usize = 0;
    while k < parent_entries.len()
        invariant
            k <= parent_entries@.len(),
            id != 2,
            exists|m: int| 0 <= m < parent_entries@.len() && (#[trigger] parent_entries@[m]).0 == id,
            forall|j: int| 0 <= j < k ==> (#[trigger] parent_entries@[j]).0 != id,
        decreases parent_entries@.len() - k,
    {
        if parent_entries[k].0 == id {
            return parent_entries[k].1.clone();
        }
        k = k + 1;
    }
    Vec::new()
}

/// The entries of a directory whose contents are the first `total` bytes
/// of `block`, after the first entry.
pub fn dir_entries(block: &[u8], total: usize, dirs_with_type: bool) -> (r: Result<Vec<RawDirEntry>, ReadDirErr>)
    requires
        total <= block@.len(),
        total + 4 <= usize::MAX,
    ensures
        match spec_dir_walk(block@, total as int, dirs_with_type, 0) {
            Ok(es) => r is Ok && r->Ok_0@ == es,
            Err(e) => r == Err::<Vec<RawDirEntry>, ReadDirErr>(e),
        },
{
    let n = block.len();
    let ghost target = spec_dir_walk(block@, total as int, dirs_with_type, 0);
    let mut out: Vec<RawDirEntry> = Vec::new();
    let mut o: usize = 0;
    assert(out@ + Seq::<RawDirEntry>::empty() =~= Seq::<RawDirEntry>::empty());
    proof {
        match spec_dir_walk(block@, total as int, dirs_with_type, 0) {
            Ok(rest) => {
                assert(out@ + rest =~= rest);
            },
            Err(_) => {},
        }
    }
    loop
        invariant
            n == block@.len(),
            total <= n,
            total + 4 <= usize::MAX,
            o <= total,
            target == spec_dir_walk(block@, total as int, dirs_with_type, 0),
            target == prepend(out@, spec_dir_walk(block@, total as int, dirs_with_type, o as int)),
        decreases total - o,
    {
        if n - o < 8 {
            return Err(ReadDirErr::InvalidDescriptor);
        }
        let size = read_u16_le(block, o + 4) as usize;
        if size == 0 {
            return Err(ReadDirErr::InvalidDescriptor);
        }
        if size >= total - o {
            proof {
                assert(align4(o + size) >= total);
                assert(out@ + Seq::<RawDirEntry>::empty() =~= out@);
            }
            return Ok(out);
        }
        let sum = o + size;
        let next = (sum + 3) / 4 * 4;
        if next >= total {
            proof {
                assert(out@ + Seq::<RawDirEntry>::empty() =~= out@);
            }
            return Ok(out);
        }
        if n - next < 8 {
            return Err(ReadDirErr::InvalidDescriptor);
        }
        let low = block[next + 6] as usize;
        let high = block[next + 7];
        let name_len = if dirs_with_type {
            low
        } else {
            low + (high as usize) * 256
        };
        let e = RawDirEntry { inode: read_u32_le(block, next), name_at: next + 8, name_len, type_byte: high };
        if e.name_len > n - e.name_at {
            return Err(ReadDirErr::InvalidDescriptor);
        }
        proof {
            assert(e == spec_raw_entry(block@, next as int, dirs_with_type));
            match spec_dir_walk(block@, total as int, dirs_with_type, next as int) {
                Ok(rest) => {
                    assert(out@.push(e) + rest =~= out@ + (seq![e] + rest));
                },
                Err(_) => {},
            }
        }
        out.push(e);
        o = next;
    }
}

/// What the indirect block tables of a file hold, as read from disk: the
/// entries of the singly indirect block; the entries of the doubly indirect
/// block and of its last table; the entries of the triply indirect block,
/// of its last doubly indirect table and of that one's last table.
#[derive(Clone, Copy, Debug, PartialEq, Eq, Structural)]
pub struct IndirectCounts {
    pub sibs: usize,
    pub num_dibs: usize,
    pub sibs_in_last_dib: usize,
    pub num_tibs: usize,
    pub dibs_in_last_tib: usize,
    pub sibs_in_last_tib_dib: usize,
}

/// The number of non-zero entries among the first `n` of `ptrs`.
pub open spec fn nonzero_count(ptrs: Seq<u32>, n: int) -> int
    decreases n,
{
    if n <= 0 {
        0
    } else {
        nonzero_count(ptrs, n - 1) + if ptrs[n - 1] != 0 {
            1int
        } else {
            0int
        }
    }
}

/// The data blocks of a file and the blocks that the file system uses for
/// its indirect tables.
pub open spec fn spec_blocks_in_use(inode: Inode, c: IndirectCounts, bs: int) -> (int, int) {
    let per = bs / 4;
    let direct = nonzero_count(inode.direct_block_ptrs@, 12);
    let s1 = if inode.singly_indirect_block_ptr != 0 { c.sibs as int } else { 0 };
    let f1 = if inode.singly_indirect_block_ptr != 0 { 1int } else { 0 };
    let s2 = if inode.doubly_indirect_block_ptr != 0 {
        (c.num_dibs - 1) * bs / 4 + c.sibs_in_last_dib
    } else {
        0
    };
    let f2 = if inode.doubly_indirect_block_ptr != 0 { 1 + c.num_dibs } else { 0 };
    let s3 = if inode.triply_indirect_block_ptr != 0 {
        (c.num_tibs - 1) * (per * per) + c.dibs_in_last_tib * bs / 4 + c.sibs_in_last_tib_dib
    } else {
        0
    };
    let f3 = if inode.triply_indirect_block_ptr != 0 {
        1 + (c.num_tibs - 1) * bs / 4 + c.dibs_in_last_tib
    } else {
        0
    };
    (direct + s1 + s2 + s3, f1 + f2 + f3)
}

/// The counts are consistent with the inode: every indirect table in use
/// has an entry, and the totals fit in a machine word.
pub open spec fn counts_fit(inode: Inode, c: IndirectCounts, bs: int) -> bool {
    &&& inode.doubly_indirect_block_ptr != 0 ==> c.num_dibs >= 1
    &&& inode.triply_indirect_block_ptr != 0 ==> c.num_tibs >= 1
    &&& 0 <= c.num_dibs * bs <= usize::MAX
    &&& 0 <= c.num_tibs * bs <= usize::MAX
    &&& 0 <= c.dibs_in_last_tib * bs <= usize::MAX
    &&& 0 <= (bs / 4) * (bs / 4) <= usize::MAX
    &&& 0 <= c.num_tibs * ((bs / 4) * (bs / 4)) <= usize::MAX
    &&& spec_blocks_in_use(inode, c, bs).0 + spec_blocks_in_use(inode, c, bs).1 + 64 <= usize::MAX
}

impl Ext2 {
    /// The number of data blocks of the file of `inode`, and the number of
    /// blocks its indirect tables take, from what those tables hold.
    pub fn blocks_in_use(&self, inode: &Inode, counts: IndirectCounts) -> (r: (usize, usize))
        requires
            counts_fit(*inode, counts, self.block_size as int),
        ensures
            r.0 == spec_blocks_in_use(*inode, counts, self.block_size as int).0,
            r.1 == spec_blocks_in_use(*inode, counts, self.block_size as int).1,
    {
        let bs = self.block_size;
        let ptrs = inode.direct_block_ptrs;
        let mut size: usize = 0;
        let mut k: usize = 0;
        while k < 12
            invariant
                k <= 12,
                ptrs@ == inode.direct_block_ptrs@,
                size == nonzero_count(ptrs@, k as int),
                size <= k,
            decreases 12 - k,
        {
            if ptrs[k] != 0 {
                size = size + 1;
            }
            k = k + 1;
        }
        let mut fs_blocks: usize = 0;
        proof {
            assert(0 <= nonzero_count(ptrs@, 12)) by {
                lemma_nonzero_count_nonneg(ptrs@, 12);
            }
        }
        if inode.singly_indirect_block_ptr != 0 {
            size = size + counts.sibs;
            fs_blocks = fs_blocks + 1;
        }
        if inode.doubly_indirect_block_ptr != 0 {
            proof {
                assert((counts.num_dibs - 1) * bs <= counts.num_dibs * bs) by (nonlinear_arith)
                    requires
                        counts.num_dibs >= 1,
                        bs >= 0,
                ;
                assert((counts.num_dibs - 1) * bs >= 0) by (nonlinear_arith)
                    requires
                        counts.num_dibs >= 1,
                        bs >= 0,
                ;
            }
            size = size + (counts.num_dibs - 1) * bs / 4 + counts.sibs_in_last_dib;
            fs_blocks = fs_blocks + 1 + counts.num_dibs;
        }
        if inode.triply_indirect_block_ptr != 0 {
            let per = bs / 4;
            proof {
                assert((counts.num_tibs - 1) * (per * per) <= counts.num_tibs * (per * per)) by (nonlinear_arith)
                    requires
                        counts.num_tibs >= 1,
                        per * per >= 0,
                ;
                assert((counts.num_tibs - 1) * (per * per) >= 0) by (nonlinear_arith)
                    requires
                        counts.num_tibs >= 1,
                        per * per >= 0,
                ;
                assert((counts.num_tibs - 1) * bs <= counts.num_tibs * bs) by (nonlinear_arith)
                    requires
                        counts.num_tibs >= 1,
                        bs >= 0,
                ;
                assert((counts.num_tibs - 1) * bs >= 0) by (nonlinear_arith)
                    requires
                        counts.num_tibs >= 1,
                        bs >= 0,
                ;
                assert(counts.dibs_in_last_tib * bs >= 0) by (nonlinear_arith)
                    requires
                        bs >= 0,
                ;
            }
            size = size + (counts.num_tibs - 1) * (per * per) + counts.dibs_in_last_tib * bs / 4
                + counts.sibs_in_last_tib_dib;
            fs_blocks = fs_blocks + 1 + (counts.num_tibs - 1) * bs / 4 + counts.dibs_in_last_tib;
        }
        (size, fs_blocks)
    }
}

proof fn lemma_nonzero_count_nonneg(ptrs: Seq<u32>, n: int)
    ensures
        0 <= nonzero_count(ptrs, n),
    decreases n,
{
    if n > 0 {
        lemma_nonzero_count_nonneg(ptrs, n - 1);
    }
}

} // verus!
