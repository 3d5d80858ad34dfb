use lib::arch_info::{heap_region, region_after_kernel, ArchInitInfo, KernelInfo};
use lib::disk::{bgd_table_span, probe_fs, Disk, KnownFs, ProbeFsErr, TryInitFsErr};
use lib::ffi::cstr::{CStr, FromPtrErr};
use lib::ffi::cstring::{CString, NulError};
use lib::fs::devfs::{block_span, name_with_number, DevFs, ResolveId};
use lib::fs::NodeType;
use lib::syscall::{
    decode_syscall, fork_child_regs, fork_entry_args, is_tty_return_value, open_return_value,
    read_return_value, seek_return_value, write_return_value, GpRegs, IsTtyErr, OpenErr, ReadErr,
    SeekErr, Syscall, WriteErr, EBADF, EINVAL, EMFILE, ENOENT, ENOTTY,
};

fn regs(eax: u32, ebx: u32, ecx: u32, edx: u32) -> GpRegs {
    GpRegs { edi: 1, esi: 2, ebp: 3, esp: 4, ebx, edx, ecx, eax }
}

#[test]
fn decodes_system_calls() {
    assert_eq!(decode_syscall(&regs(0, 0x1000, 5, 0)), Syscall::Open { pathname: 0x1000, len: 5 });
    assert_eq!(decode_syscall(&regs(1, 1, 0x2000, 10)), Syscall::Write { fd: 1, buf: 0x2000, len: 10 });
    assert_eq!(decode_syscall(&regs(2, 0xFFFF_FFFF, 0, 0)), Syscall::Read { fd: -1, buf: 0, len: 0 });
    assert_eq!(decode_syscall(&regs(4, 3, 7, 0)), Syscall::SeekRel { fd: 3, offset: 7 });
    assert_eq!(decode_syscall(&regs(10, 0xFFFF_FFFE, 0, 0)), Syscall::Exit { status: -2 });
    assert_eq!(decode_syscall(&regs(12, 0, 0, 0)), Syscall::GetPid);
    assert_eq!(decode_syscall(&regs(13, 0, 0, 0)), Syscall::Fork);
    assert_eq!(decode_syscall(&regs(7, 0, 0, 0)), Syscall::Invalid { num: 7 });
}

#[test]
fn system_call_results_for_user_mode() {
    assert_eq!(open_return_value(Ok(3)), 3);
    assert_eq!(open_return_value(Err(OpenErr::NotFound)), ENOENT);
    assert_eq!(open_return_value(Err(OpenErr::MaxOpenedFiles)), EMFILE);
    assert_eq!(open_return_value(Err(OpenErr::UnsupportedFileType)), EINVAL);
    assert_eq!(write_return_value(Ok(12)), 12);
    assert_eq!(write_return_value(Err(WriteErr::BadFd)), EBADF);
    assert_eq!(read_return_value(Err(ReadErr::NotReadable)), EINVAL);
    assert_eq!(seek_return_value(Err(SeekErr::BadFd)), EBADF);
    assert_eq!(is_tty_return_value(Ok(true)), 1);
    assert_eq!(is_tty_return_value(Ok(false)), ENOTTY);
    assert_eq!(is_tty_return_value(Err(IsTtyErr::BadFd)), EBADF);
}

#[test]
fn forked_children_start_with_zero_result() {
    let r = fork_child_regs(&regs(13, 9, 8, 7), 0xB000, 0xC000);
    assert_eq!(r.eax, 0);
    assert_eq!(r.ebp, 0xB000);
    assert_eq!(r.esp, 0xC000);
    assert_eq!((r.ebx, r.ecx, r.edx, r.edi, r.esi), (9, 8, 7, 1, 2));
    assert_eq!(fork_entry_args(0x0804_8000, 0x5000), vec![24, 32, 48, 0x0804_8000, 0x5000]);
}

#[test]
fn c_strings() {
    let s = CString::new(b"hello".to_vec()).unwrap_or_else(|_| panic!());
    assert_eq!(s.as_bytes_with_nul(), b"hello\0");
    assert_eq!(s.as_cstr().to_bytes_with_nul(), b"hello\0");
    assert!(matches!(CString::new(b"he\0lo".to_vec()), Err(NulError(2))));
    let mem = b"path\0rest";
    let c = CStr::from_ptr(mem, 9).unwrap_or_else(|_| panic!());
    assert_eq!(c.to_bytes_with_nul(), b"path\0");
    assert_eq!(c.to_str().unwrap_or_else(|_| panic!()), "path");
    assert!(matches!(CStr::from_ptr(mem, 4), Err(FromPtrErr::MaxLenExceeded)));
    let bad = [0xFFu8, 0];
    assert!(CStr::from_ptr(&bad, 2).unwrap_or_else(|_| panic!()).to_str().is_err());
    assert_eq!(CString::from_cstr(&c).as_bytes_with_nul(), b"path\0");
    assert_eq!(c.to_owned().as_bytes_with_nul(), b"path\0");
}

#[test]
fn device_file_system() {
    let fs = DevFs::init(2, 1);
    assert_eq!(fs.allocate_id(true), 2);
    assert_eq!(fs.allocate_id(false), 101);
    assert_eq!(fs.resolve_id(1), ResolveId::BlockDevice(1));
    assert_eq!(fs.resolve_id(100), ResolveId::CharDevice(0));
    let nodes = fs.read_dir(200);
    assert_eq!(nodes.len(), 3);
    assert_eq!(nodes[0].name, b"blk0".to_vec());
    assert_eq!(nodes[1].name, b"blk1".to_vec());
    assert_eq!(nodes[1].node_type, NodeType::BlockDevice);
    assert_eq!(nodes[2].name, b"chr0".to_vec());
    assert_eq!(nodes[2].id_in_fs, 100);
    assert_eq!(name_with_number(b"tty", 123), b"tty123".to_vec());
    assert_eq!(name_with_number(b"", 0), b"0".to_vec());
    assert_eq!(block_span(1000, 100, 512), (1, 2, 488));
    assert_eq!(block_span(0, 512, 512), (0, 1, 0));
    let mut fs = DevFs::new();
    let blk = fs.register_block_device(7);
    let chr = fs.register_char_device(9);
    assert_eq!(fs.resolve_id(blk), ResolveId::BlockDevice(0));
    assert_eq!(fs.block_devices[0], 7);
    assert_eq!(fs.resolve_id(chr), ResolveId::CharDevice(0));
    assert_eq!(fs.char_devices[0], 9);
}

fn superblock(signature: u16) -> Vec<u8> {
    let mut sb = vec![0u8; 1024];
    sb[4..8].copy_from_slice(&4096u32.to_le_bytes());
    sb[24..28].copy_from_slice(&1u32.to_le_bytes());
    sb[32..36].copy_from_slice(&8192u32.to_le_bytes());
    sb[40..44].copy_from_slice(&1024u32.to_le_bytes());
    sb[56..58].copy_from_slice(&signature.to_le_bytes());
    sb
}

#[test]
fn disks_find_their_file_system() {
    assert_eq!(probe_fs(&superblock(0xEF53)), Ok(KnownFs::Ext2));
    assert_eq!(probe_fs(&superblock(0x1234)), Err(ProbeFsErr::UnknownFs));
    // 2 KiB blocks: the descriptor table is in block 1; one group.
    assert_eq!(bgd_table_span(&superblock(0xEF53)), (2048, 32));
    let bgd = vec![0u8; 32];
    let mut disk = Disk::new(0);
    assert_eq!(disk.try_init_fs(&superblock(0x1234), &bgd), Err(TryInitFsErr::ProbeFsErr(ProbeFsErr::UnknownFs)));
    assert!(disk.file_system.is_none());
    assert_eq!(disk.try_init_fs(&superblock(0xEF53), &bgd), Ok(()));
    assert_eq!(disk.file_system.as_ref().unwrap().block_size, 2048);
    assert_eq!(disk.try_init_fs(&superblock(0xEF53), &bgd), Err(TryInitFsErr::AlreadyHasFs));
}

#[test]
fn heap_goes_after_the_kernel() {
    let r = heap_region(0x0012_3456);
    assert_eq!(r.start, 0x0040_0000);
    assert_eq!(r.end, 0x0080_0000);
    let exact = region_after_kernel(0x0080_0000, 0x1000);
    assert_eq!((exact.start, exact.end), (0x0080_0000, 0x0080_1000));
    let a = ArchInitInfo::new();
    assert_eq!((a.heap_region.start, a.heap_region.end), (0, 0));
    assert!(KernelInfo::new().available_memory_regions.is_empty());
}

#[test]
fn device_files_have_no_size() {
    assert_eq!(DevFs::new().file_size_bytes(3), Ok(0));
}
