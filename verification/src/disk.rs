use vstd::prelude::*;

use crate::bits::read_u16_le;
use crate::fs::ext2::{
    sb_block_group_num_blocks, sb_log_block_size, sb_signature, sb_total_num_blocks, spec_block_size,
    spec_num_block_groups, superblock_usable, block_size_of, num_block_groups, Ext2, FromRawErr,
    BGD_SIZE, EXT2_SIGNATURE, SUPERBLOCK_SIZE,
};
use crate::bits::read_u32_le;

verus! {

/// Where the ext2 superblock lies on a disk.
pub const SUPERBLOCK_OFFSET: usize = 1024;

/// The file systems the kernel knows.
#[derive(Clone, Copy, Debug, PartialEq, Eq, Structural)]
pub enum KnownFs {
    Ext2,
}

#[derive(Clone, Copy, Debug, PartialEq, Eq, Structural)]
pub enum ProbeFsErr {
    UnknownFs,
    ReadErr,
}

#[derive(Clone, Copy, Debug, PartialEq, Eq, Structural)]
pub enum TryInitFsErr {
    AlreadyHasFs,
    ProbeFsErr(ProbeFsErr),
    InitExt2Err(FromRawErr),
    ReadErr,
    ReadRootDirErr,
}

/// A disk and the file system found on it.
pub struct Disk {
    pub id: usize,
    pub file_system: Option<Ext2>,
}

/// Tells the file system from the superblock area read at
/// [`SUPERBLOCK_OFFSET`]: ext2 when its signature is there.
pub fn probe_fs(raw_sb: &[u8]) -> (r: Result<KnownFs, ProbeFsErr>)
    requires
        raw_sb@.len() >= 58,
    ensures
        sb_signature(raw_sb@) == EXT2_SIGNATURE ==> r == Ok::<KnownFs, ProbeFsErr>(KnownFs::Ext2),
        sb_signature(raw_sb@) != EXT2_SIGNATURE ==> r == Err::<KnownFs, ProbeFsErr>(ProbeFsErr::UnknownFs),
{
    if read_u16_le(raw_sb, 56) == EXT2_SIGNATURE {
        Ok(KnownFs::Ext2)
    } else {
        Err(ProbeFsErr::UnknownFs)
    }
}

/// Where the block group descriptor table of the file system of `raw_sb`
/// lies: in the block after the superblock's, and as long as the
/// descriptors of all the block groups.
pub fn bgd_table_span(raw_sb: &[u8]) -> (r: (usize, usize))
    requires
        superblock_usable(raw_sb@),
        spec_num_block_groups(sb_total_num_blocks(raw_sb@), sb_block_group_num_blocks(raw_sb@)) * BGD_SIZE
            <= usize::MAX,
    ensures
        ({
            let bs = spec_block_size(sb_log_block_size(raw_sb@));
            &&& r.0 == bs * ((SUPERBLOCK_OFFSET as nat) / bs + 1)
            &&& r.1 == spec_num_block_groups(sb_total_num_blocks(raw_sb@), sb_block_group_num_blocks(raw_sb@))
                * BGD_SIZE
        }),
{
    let bs = block_size_of(read_u32_le(raw_sb, 24));
    if bs > 1024 {
        assert(1024usize / bs == 0) by (nonlinear_arith)
            requires
                bs > 1024,
        ;
    } else {
        assert(bs == 1024);
    }
    let n = num_block_groups(read_u32_le(raw_sb, 4), read_u32_le(raw_sb, 32));
    (bs * (SUPERBLOCK_OFFSET / bs + 1), n * BGD_SIZE)
}

impl Disk {
    pub fn new(id: usize) -> (r: Disk)
        ensures
            r.id == id,
            r.file_system is None,
    {
        Disk { id, file_system: None }
    }

    /// Sets up the file system of the disk from its superblock and block
    /// group descriptor table, once.
    pub fn try_init_fs(&mut self, raw_sb: &[u8], raw_bgd: &[u8]) -> (r: Result<(), TryInitFsErr>)
        requires
            raw_sb@.len() == SUPERBLOCK_SIZE,
            sb_log_block_size(raw_sb@) <= 21,
            sb_block_group_num_blocks(raw_sb@) != 0 || sb_total_num_blocks(raw_sb@) == 0,
            raw_bgd@.len() != 0,
            spec_num_block_groups(sb_total_num_blocks(raw_sb@), sb_block_group_num_blocks(raw_sb@)) * BGD_SIZE
                <= raw_bgd@.len(),
        ensures
            final(self).id == old(self).id,
            old(self).file_system is Some ==> r == Err::<(), TryInitFsErr>(TryInitFsErr::AlreadyHasFs)
                && final(self).file_system == old(self).file_system,
            old(self).file_system is None && sb_signature(raw_sb@) != EXT2_SIGNATURE ==> r == Err::<(), TryInitFsErr>(
                TryInitFsErr::ProbeFsErr(ProbeFsErr::UnknownFs),
            ) && final(self).file_system is None,
            old(self).file_system is None && sb_signature(raw_sb@) == EXT2_SIGNATURE ==> (r is Ok
                <==> final(self).file_system is Some),
    {
        if self.file_system.is_some() {
            return Err(TryInitFsErr::AlreadyHasFs);
        }
        match probe_fs(raw_sb) {
            Err(e) => Err(TryInitFsErr::ProbeFsErr(e)),
            Ok(KnownFs::Ext2) => {
                match Ext2::from_raw(raw_sb, raw_bgd) {
                    Ok(fs) => {
                        self.file_system = Some(fs);
                        Ok(())
                    },
                    Err(e) => Err(TryInitFsErr::InitExt2Err(e)),
                }
            },
        }
    }
}

} // verus!
