use vstd::prelude::*;

use crate::pmm_stack::PmmStack;

use crate::gdt::{TLS_SEG, USERMODE_CODE_SEG, USERMODE_DATA_SEG};
use crate::process::OpenFileErr;
use crate::task::Task;

verus! {

/// The general purpose registers of a user mode thread, in the order the
/// switch code pushes them.
#[derive(Clone, Copy, Debug, PartialEq, Eq, Structural)]
pub struct GpRegs {
    pub edi: u32,
    pub esi: u32,
    pub ebp: u32,
    pub esp: u32,
    pub ebx: u32,
    pub edx: u32,
    pub ecx: u32,
    pub eax: u32,
}

/// Error numbers that system calls return to user mode.
pub const EBADF: i32 = -1;
pub const EINVAL: i32 = -2;
pub const EMFILE: i32 = -3;
pub const ENOENT: i32 = -4;
pub const ENOTTY: i32 = -5;

/// A system call, decoded from the registers of the calling thread.
#[derive(Clone, Copy, Debug, PartialEq, Eq, Structural)]
pub enum Syscall {
    Open { pathname: u32, len: u32 },
    Write { fd: i32, buf: u32, len: u32 },
    Read { fd: i32, buf: u32, len: u32 },
    SeekAbs { fd: i32, offset: u32 },
    SeekRel { fd: i32, offset: u32 },
    MemMap { args: u32 },
    SetTls { ptr: u32 },
    DebugPrintNum { num: u32 },
    DebugPrintStr { string: u32, len: u32 },
    Exit { status: i32 },
    IsTty { fd: i32 },
    GetPid,
    Fork,
    Invalid { num: u32 },
}

#[derive(Clone, Copy, Debug, PartialEq, Eq, Structural)]
pub enum OpenErr {
    NotFound,
    MaxOpenedFiles,
    UnsupportedFileType,
}

#[derive(Clone, Copy, Debug, PartialEq, Eq, Structural)]
pub enum WriteErr {
    BadFd,
}

#[derive(Clone, Copy, Debug, PartialEq, Eq, Structural)]
pub enum ReadErr {
    BadFd,
    NotReadable,
}

#[derive(Clone, Copy, Debug, PartialEq, Eq, Structural)]
pub enum Seek {
    Abs,
    Rel,
}

#[derive(Clone, Copy, Debug, PartialEq, Eq, Structural)]
pub enum SeekErr {
    BadFd,
}

#[derive(Clone, Copy, Debug, PartialEq, Eq, Structural)]
pub enum IsTtyErr {
    BadFd,
}

/// Memory mapping protections and flags.
pub const PROT_READ: u32 = 0b0010;
pub const PROT_WRITE: u32 = 0b0100;
pub const MAP_PRIVATE: u32 = 0b0001;
pub const MAP_ANONYMOUS: u32 = 0b0010;

/// The value of a register as a signed number.
pub open spec fn signed(x: u32) -> i32 {
    x as i32
}

/// The system call that the registers ask for: its number is in `eax` and
/// its arguments in `ebx`, `ecx` and `edx`.
pub open spec fn spec_decode(r: GpRegs) -> Syscall {
    let n = r.eax;
    if n == 0 {
        Syscall::Open { pathname: r.ebx, len: r.ecx }
    } else if n == 1 {
        Syscall::Write { fd: signed(r.ebx), buf: r.ecx, len: r.edx }
    } else if n == 2 {
        Syscall::Read { fd: signed(r.ebx), buf: r.ecx, len: r.edx }
    } else if n == 3 {
        Syscall::SeekAbs { fd: signed(r.ebx), offset: r.ecx }
    } else if n == 4 {
        Syscall::SeekRel { fd: signed(r.ebx), offset: r.ecx }
    } else if n == 5 {
        Syscall::MemMap { args: r.ebx }
    } else if n == 6 {
        Syscall::SetTls { ptr: r.ebx }
    } else if n == 8 {
        Syscall::DebugPrintNum { num: r.ebx }
    } else if n == 9 {
        Syscall::DebugPrintStr { string: r.ebx, len: r.ecx }
    } else if n == 10 {
        Syscall::Exit { status: signed(r.ebx) }
    } else if n == 11 {
        Syscall::IsTty { fd: signed(r.ebx) }
    } else if n == 12 {
        Syscall::GetPid
    } else if n == 13 {
        Syscall::Fork
    } else {
        Syscall::Invalid { num: n }
    }
}

/// The number of each system call, as user mode passes it in `eax`.
pub open spec fn syscall_number(c: Syscall) -> u32 {
    match c {
        Syscall::Open { .. } => 0,
        Syscall::Write { .. } => 1,
        Syscall::Read { .. } => 2,
        Syscall::SeekAbs { .. } => 3,
        Syscall::SeekRel { .. } => 4,
        Syscall::MemMap { .. } => 5,
        Syscall::SetTls { .. } => 6,
        Syscall::DebugPrintNum { .. } => 8,
        Syscall::DebugPrintStr { .. } => 9,
        Syscall::Exit { .. } => 10,
        Syscall::IsTty { .. } => 11,
        Syscall::GetPid => 12,
        Syscall::Fork => 13,
        Syscall::Invalid { num } => num,
    }
}

/// Whether `n` is the number of a system call.
pub open spec fn is_syscall_number(n: u32) -> bool {
    n <= 6 || (8 <= n && n <= 13)
}

/// Decoding keeps the number user mode asked for: the call decoded has the
/// number in `eax` (so distinct numbers give distinct calls, number 3 an
/// absolute seek and number 4 a relative one), only a number of no system
/// call is invalid, and the arguments are `ebx`, `ecx` and `edx` in that
/// order, descriptors and statuses read as signed.
pub proof fn lemma_decode_keeps_number(r: GpRegs)
    ensures
        syscall_number(spec_decode(r)) == r.eax,
        spec_decode(r) is Invalid <==> !is_syscall_number(r.eax),
        spec_decode(r) matches Syscall::Open { pathname, len } ==> pathname == r.ebx && len == r.ecx,
        spec_decode(r) matches Syscall::Write { fd, buf, len } ==> fd == r.ebx as i32 && buf == r.ecx && len == r.edx,
        spec_decode(r) matches Syscall::Read { fd, buf, len } ==> fd == r.ebx as i32 && buf == r.ecx && len == r.edx,
        spec_decode(r) matches Syscall::SeekAbs { fd, offset } ==> fd == r.ebx as i32 && offset == r.ecx,
        spec_decode(r) matches Syscall::SeekRel { fd, offset } ==> fd == r.ebx as i32 && offset == r.ecx,
        spec_decode(r) matches Syscall::MemMap { args } ==> args == r.ebx,
        spec_decode(r) matches Syscall::SetTls { ptr } ==> ptr == r.ebx,
        spec_decode(r) matches Syscall::DebugPrintNum { num } ==> num == r.ebx,
        spec_decode(r) matches Syscall::DebugPrintStr { string, len } ==> string == r.ebx && len == r.ecx,
        spec_decode(r) matches Syscall::Exit { status } ==> status == r.ebx as i32,
        spec_decode(r) matches Syscall::IsTty { fd } ==> fd == r.ebx as i32,
{
}

/// Two register sets asking for different system call numbers decode to
/// different calls.
pub proof fn lemma_decode_distinguishes_numbers(a: GpRegs, b: GpRegs)
    requires
        a.eax != b.eax,
    ensures
        spec_decode(a) != spec_decode(b),
{
    lemma_decode_keeps_number(a);
    lemma_decode_keeps_number(b);
}

pub fn to_signed(x: u32) -> (r: i32)
    ensures
        r == signed(x),
{
    x as i32
}

/// Decodes the system call that the registers ask for.
pub fn decode_syscall(regs: &GpRegs) -> (r: Syscall)
    ensures
        r == spec_decode(*regs),
{
    let n = regs.eax;
    if n == 0 {
        Syscall::Open { pathname: regs.ebx, len: regs.ecx }
    } else if n == 1 {
        Syscall::Write { fd: to_signed(regs.ebx), buf: regs.ecx, len: regs.edx }
    } else if n == 2 {
        Syscall::Read { fd: to_signed(regs.ebx), buf: regs.ecx, len: regs.edx }
    } else if n == 3 {
        Syscall::SeekAbs { fd: to_signed(regs.ebx), offset: regs.ecx }
    } else if n == 4 {
        Syscall::SeekRel { fd: to_signed(regs.ebx), offset: regs.ecx }
    } else if n == 5 {
        Syscall::MemMap { args: regs.ebx }
    } else if n == 6 {
        Syscall::SetTls { ptr: regs.ebx }
    } else if n == 8 {
        Syscall::DebugPrintNum { num: regs.ebx }
    } else if n == 9 {
        Syscall::DebugPrintStr { string: regs.ebx, len: regs.ecx }
    } else if n == 10 {
        Syscall::Exit { status: to_signed(regs.ebx) }
    } else if n == 11 {
        Syscall::IsTty { fd: to_signed(regs.ebx) }
    } else if n == 12 {
        Syscall::GetPid
    } else if n == 13 {
        Syscall::Fork
    } else {
        Syscall::Invalid { num: n }
    }
}

/// The value `open` returns to user mode: the descriptor, or an error
/// number.
pub fn open_return_value(r: Result<i32, OpenErr>) -> (v: i32)
    ensures
        v == match r {
            Ok(fd) => fd,
            Err(OpenErr::NotFound) => ENOENT,
            Err(OpenErr::MaxOpenedFiles) => EMFILE,
            Err(OpenErr::UnsupportedFileType) => EINVAL,
        },
{
    match r {
        Ok(fd) => fd,
        Err(OpenErr::NotFound) => ENOENT,
        Err(OpenErr::MaxOpenedFiles) => EMFILE,
        Err(OpenErr::UnsupportedFileType) => EINVAL,
    }
}

/// The value `write` returns to user mode: the bytes written, or an error
/// number.
pub fn write_return_value(r: Result<usize, WriteErr>) -> (v: i32)
    ensures
        v == match r {
            Ok(n) => n as i32,
            Err(WriteErr::BadFd) => EBADF,
        },
{
    match r {
        Ok(n) => n as i32,
        Err(WriteErr::BadFd) => EBADF,
    }
}

/// The value `read` returns to user mode: the bytes read, or an error
/// number.
pub fn read_return_value(r: Result<usize, ReadErr>) -> (v: i32)
    ensures
        v == match r {
            Ok(n) => n as i32,
            Err(ReadErr::BadFd) => EBADF,
            Err(ReadErr::NotReadable) => EINVAL,
        },
{
    match r {
        Ok(n) => n as i32,
        Err(ReadErr::BadFd) => EBADF,
        Err(ReadErr::NotReadable) => EINVAL,
    }
}

/// The value `seek` returns to user mode: the new offset, or an error
/// number.
pub fn seek_return_value(r: Result<usize, SeekErr>) -> (v: i32)
    ensures
        v == match r {
            Ok(n) => n as i32,
            Err(SeekErr::BadFd) => EBADF,
        },
{
    match r {
        Ok(n) => n as i32,
        Err(SeekErr::BadFd) => EBADF,
    }
}

/// The value `is_tty` returns to user mode: 1 for a terminal, else an error
/// number.
pub fn is_tty_return_value(r: Result<bool, IsTtyErr>) -> (v: i32)
    ensures
        v == match r {
            Ok(true) => 1,
            Ok(false) => ENOTTY,
            Err(IsTtyErr::BadFd) => EBADF,
        },
{
    match r {
        Ok(true) => 1,
        Ok(false) => ENOTTY,
        Err(IsTtyErr::BadFd) => EBADF,
    }
}

impl OpenErr {
    pub fn from_open_file_err(err: OpenFileErr) -> (r: OpenErr)
        ensures
            r == match err {
                OpenFileErr::MaxOpenedFiles => OpenErr::MaxOpenedFiles,
                OpenFileErr::UnsupportedFileType => OpenErr::UnsupportedFileType,
            },
    {
        match err {
            OpenFileErr::MaxOpenedFiles => OpenErr::MaxOpenedFiles,
            OpenFileErr::UnsupportedFileType => OpenErr::UnsupportedFileType,
        }
    }
}

/// The registers a forked child starts user mode with: those of the parent
/// at the system call, with 0 as the call's result and the parent's user
/// mode frame and stack pointers.
pub fn fork_child_regs(regs: &GpRegs, usermode_ebp: u32, usermode_esp: u32) -> (r: GpRegs)
    ensures
        r == (GpRegs { eax: 0, ebp: usermode_ebp, esp: usermode_esp, ..*regs }),
{
    GpRegs { eax: 0, ebp: usermode_ebp, esp: usermode_esp, ..*regs }
}

/// The arguments of the entry point of a forked child: the user mode code,
/// data and TLS selectors, where to resume, and where its registers are.
pub fn fork_entry_args(eip: u32, regs_addr: u32) -> (r: Vec<u32>)
    ensures
        r@ == seq![USERMODE_CODE_SEG as u32, USERMODE_DATA_SEG as u32, TLS_SEG as u32, eip, regs_addr],
{
    let mut v: Vec<u32> = Vec::new();
    v.push(USERMODE_CODE_SEG as u32);
    v.push(USERMODE_DATA_SEG as u32);
    v.push(TLS_SEG as u32);
    v.push(eip);
    v.push(regs_addr);
    v
}

/// Accounts for writing `len` bytes to file `fd` of `task`: the file's
/// position moves past them.
pub fn write(task: &mut Task, fd: i32, len: usize) -> (r: Result<usize, WriteErr>)
    requires
        0 <= fd < old(task).opened_files@.len() ==> (old(task).opened_files@[fd as int].offset matches Some(o)
            ==> o + len <= usize::MAX),
    ensures
        !(0 <= fd < old(task).opened_files@.len()) ==> r == Err::<usize, WriteErr>(WriteErr::BadFd)
            && final(task).opened_files@ == old(task).opened_files@,
        0 <= fd < old(task).opened_files@.len() ==> r == Ok::<usize, WriteErr>(len) && final(task).opened_files@
            == old(task).opened_files@.update(
            fd as int,
            crate::process::OpenedFile {
                offset: match old(task).opened_files@[fd as int].offset {
                    Some(o) => Some((o + len) as usize),
                    None => None,
                },
                ..old(task).opened_files@[fd as int]
            },
        ),
        final(task).id == old(task).id,
{
    if !task.check_fd(fd) {
        Err(WriteErr::BadFd)
    } else {
        let f = task.opened_file(fd);
        let n = f.write(len);
        Ok(n)
    }
}

/// What the read system call does next.
#[derive(Clone, Copy, Debug, PartialEq, Eq)]
pub enum ReadStep {
    /// The call returns this.
    Done(Result<usize, ReadErr>),
    /// The task blocks until it can read, then tries again.
    BlockAndRetry,
}

/// Decides the read system call on file `fd` of `task`, given `fs_result`,
/// what reading the open file gave (not looked at when `fd` is not a
/// descriptor): a bad descriptor is answered at once; a successful read
/// moves the file's position past the bytes read and returns their number;
/// a read that would block blocks the task and is tried again; a file that
/// cannot be read is answered as such.  Other read errors are not handled.
pub fn read_step(task: &mut Task, fd: i32, fs_result: Result<usize, crate::fs::ReadFileErr>) -> (r: ReadStep)
    requires
        0 <= fd < old(task).opened_files@.len() ==> match fs_result {
            Ok(n) => old(task).opened_files@[fd as int].offset matches Some(o) ==> o + n <= usize::MAX,
            Err(e) => e == crate::fs::ReadFileErr::Block || e == crate::fs::ReadFileErr::NotReadable,
        },
    ensures
        !(0 <= fd < old(task).opened_files@.len()) ==> r == ReadStep::Done(Err(ReadErr::BadFd))
            && final(task).opened_files@ == old(task).opened_files@,
        0 <= fd < old(task).opened_files@.len() ==> match fs_result {
            Ok(n) => r == ReadStep::Done(Ok(n)) && final(task).opened_files@ == old(task).opened_files@.update(
                fd as int,
                crate::process::OpenedFile {
                    offset: match old(task).opened_files@[fd as int].offset {
                        Some(o) => Some((o + n) as usize),
                        None => None,
                    },
                    ..old(task).opened_files@[fd as int]
                },
            ),
            Err(e) => final(task).opened_files@ == old(task).opened_files@ && r == if e
                == crate::fs::ReadFileErr::Block {
                ReadStep::BlockAndRetry
            } else {
                ReadStep::Done(Err(ReadErr::NotReadable))
            },
        },
        final(task).id == old(task).id,
{
    if !task.check_fd(fd) {
        return ReadStep::Done(Err(ReadErr::BadFd));
    }
    let f = task.opened_file(fd);
    match f.read(fs_result) {
        Ok(n) => ReadStep::Done(Ok(n)),
        Err(crate::fs::ReadFileErr::Block) => ReadStep::BlockAndRetry,
        Err(_) => ReadStep::Done(Err(ReadErr::NotReadable)),
    }
}

/// Moves the position of file `fd` of `task`, to `offset` or forward by it,
/// and returns the new position.
pub fn seek(task: &mut Task, variant: Seek, fd: i32, offset: usize) -> (r: Result<usize, SeekErr>)
    requires
        variant == Seek::Rel && 0 <= fd < old(task).opened_files@.len() ==> (
        old(task).opened_files@[fd as int].offset matches Some(o) ==> o + offset <= usize::MAX),
    ensures
        !(0 <= fd < old(task).opened_files@.len()) ==> r == Err::<usize, SeekErr>(SeekErr::BadFd)
            && final(task).opened_files@ == old(task).opened_files@,
        0 <= fd < old(task).opened_files@.len() ==> ({
            let f = old(task).opened_files@[fd as int];
            let new_offset: Option<usize> = match f.offset {
                Some(o) => Some(
                    if variant == Seek::Abs {
                        offset
                    } else {
                        (o + offset) as usize
                    },
                ),
                None => None,
            };
            &&& r == Ok::<usize, SeekErr>(
                match new_offset {
                    Some(o) => o,
                    None => 0,
                },
            )
            &&& final(task).opened_files@ == old(task).opened_files@.update(
                fd as int,
                crate::process::OpenedFile { offset: new_offset, ..f },
            )
        }),
        final(task).id == old(task).id,
{
    if !task.check_fd(fd) {
        Err(SeekErr::BadFd)
    } else {
        let f = task.opened_file(fd);
        let n = match variant {
            Seek::Abs => f.seek_abs(offset),
            Seek::Rel => f.seek_rel(offset),
        };
        Ok(n)
    }
}

/// Whether file `fd` of `task` is a terminal: a node of the device file
/// system whose name starts with "tty".  `on_devfs` and `name` describe the
/// file's node.
pub fn is_tty(task: &Task, fd: i32, on_devfs: bool, name: &[u8]) -> (r: Result<bool, IsTtyErr>)
    ensures
        !(0 <= fd < task.opened_files@.len()) ==> r == Err::<bool, IsTtyErr>(IsTtyErr::BadFd),
        0 <= fd < task.opened_files@.len() ==> r == Ok::<bool, IsTtyErr>(
            on_devfs && name@.len() >= 3 && name@[0] == 0x74 && name@[1] == 0x74 && name@[2] == 0x79,
        ),
{
    if !task.check_fd(fd) {
        return Err(IsTtyErr::BadFd);
    }
    if !on_devfs {
        return Ok(false);
    }
    Ok(name.len() >= 3 && name[0] == 0x74 && name[1] == 0x74 && name[2] == 0x79)
}

/// The process ID of `task` as user mode sees it.
pub fn get_pid(task: &Task) -> (r: i32)
    ensures
        r == task.id as i32,
{
    task.id as i32
}

/// Checks a memory mapping request: only anonymous private mappings that
/// may be read and written, at an address the kernel picks, are supported.
pub fn mem_map_supported(addr: usize, prot: u32, flags: u32, fd: i32) -> (r: bool)
    ensures
        r == (addr == 0 && fd == -1 && prot == PROT_READ | PROT_WRITE && flags == MAP_PRIVATE | MAP_ANONYMOUS),
{
    addr == 0 && fd == -1 && prot == PROT_READ | PROT_WRITE && flags == MAP_PRIVATE | MAP_ANONYMOUS
}

/// Maps `len` bytes of anonymous memory for `task` and returns where; the
/// request must be a supported one.  Page tables come from `tables` and
/// frames from `pages`, as [`Task::mem_map`] takes them.  `None`, with
/// nothing changed, when the task has no room.
pub fn mem_map(
    task: &mut Task,
    addr: usize,
    len: usize,
    prot: u32,
    flags: u32,
    fd: i32,
    offset: usize,
    tables: &mut Vec<u32>,
    pages: &mut PmmStack,
) -> (r: Option<usize>)
    requires
        addr == 0 && fd == -1 && prot == PROT_READ | PROT_WRITE && flags == MAP_PRIVATE | MAP_ANONYMOUS,
        len % 4096 == 0,
        crate::process::ends_below_top(old(task).program_segments@),
        crate::process::ends_below_top(crate::process::mapping_regions(old(task).mem_mappings@)),
        old(task).vas.wf(),
        old(pages).wf(),
        forall|i: int| 0 <= i < old(pages).pages@.len() ==> #[trigger] old(pages).pages@[i] & 0xFFFu32 == 0,
        forall|i: int| 0 <= i < old(tables)@.len() ==> #[trigger] old(tables)@[i] & 0xFFFu32 == 0,
        match old(task).spec_mem_map(len) {
            Some(reg) => reg.spec_is_in(
                crate::memory_region::Region {
                    start: crate::task::USERMODE_REGION_START,
                    end: crate::task::USERMODE_REGION_END,
                },
            ) ==> crate::vas::can_map_fresh(
                old(task).vas,
                reg.start as u32,
                reg.end as u32,
                crate::task::task_slots_end(reg.end),
                old(tables)@,
                old(pages).pages@,
            ),
            None => true,
        },
    ensures
        r == match old(task).spec_mem_map(len) {
            Some(reg) => if reg.spec_is_in(
                crate::memory_region::Region {
                    start: crate::task::USERMODE_REGION_START,
                    end: crate::task::USERMODE_REGION_END,
                },
            ) {
                Some(reg.start)
            } else {
                None::<usize>
            },
            None => None::<usize>,
        },
        match old(task).spec_mem_map(len) {
            Some(reg) => r is Some ==> crate::vas::mapped_fresh(
                old(task).vas,
                final(task).vas,
                reg.start as u32,
                reg.end as u32,
                crate::task::task_slots_end(reg.end),
                old(tables)@,
                final(tables)@,
                old(pages).pages@,
                final(pages).pages@,
            ),
            None => true,
        },
        r is None ==> final(task).vas == old(task).vas && final(tables)@ == old(tables)@ && final(pages).pages@
            == old(pages).pages@,
{
    match task.mem_map(len, tables, pages) {
        Some(m) => Some(m.region.start),
        None => None,
    }
}

} // verus!
