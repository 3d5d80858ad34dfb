use lib::syscall::{get_pid, is_tty, read_step, seek, IsTtyErr, ReadErr, ReadStep, Seek, SeekErr, WriteErr};
use lib::char_device::read_file_err;
use lib::fs::ReadFileErr;
use lib::fs::{Node, NodeType};
use lib::gdt::{GlobalDescriptorTable, TLS_IDX};
use lib::pmm_stack::PmmStack;
use lib::process::{OpenFileErr, Process, MAX_OPENED_FILES, PROGRAM_REGION_END, PROGRAM_REGION_START};
use lib::scheduler::Scheduler;
use lib::stack::Stack;
use lib::task::{Task, USERMODE_REGION_START, USERMODE_STACK_REGION_END};
use lib::task_manager::TaskManager;
use lib::thread::Thread;
use lib::vas::VirtAddrSpace;

fn console() -> Node {
    Node { index: 7, node_type: NodeType::CharDevice, id_in_fs: Some(100) }
}

fn file() -> Node {
    Node { index: 9, node_type: NodeType::RegularFile, id_in_fs: Some(12) }
}

fn stack_at(base: usize) -> Stack {
    Stack::from_region(base, base + 4096)
}

fn thread(pid: usize, tid: usize) -> Thread {
    Thread::new(pid, tid, 0x1000, stack_at(0x10_0000 + 0x1000 * tid))
}

fn scheduler_with(n: usize) -> Scheduler {
    let mut s = Scheduler::new();
    s.init_vec_deques();
    let mut p = Process::new(0, VirtAddrSpace::empty(0x2000, true), console());
    for _ in 0..n {
        p.allocate_thread_id();
    }
    s.add_process(p);
    for tid in 1..n {
        let mut q = s.runnable_threads.take().unwrap();
        q.push_back(thread(0, tid));
        s.runnable_threads = Some(q);
    }
    s.run_thread(thread(0, 0));
    s
}

fn ids(q: &std::collections::VecDeque<Thread>) -> Vec<usize> {
    q.iter().map(|t| t.id).collect()
}

#[test]
fn schedule_rotates_round_robin() {
    let mut s = scheduler_with(3);
    assert!(s.schedule(50, true, 0));
    assert_eq!(s.running_thread.as_ref().unwrap().id, 1);
    assert_eq!(ids(s.runnable_threads.as_ref().unwrap()), vec![2, 0]);
    assert_eq!(s.counter, 50);
    assert!(s.schedule(50, true, 0));
    assert_eq!(s.running_thread.as_ref().unwrap().id, 2);
    assert_eq!(ids(s.runnable_threads.as_ref().unwrap()), vec![0, 1]);
}

#[test]
fn schedule_is_held_off() {
    let mut s = scheduler_with(2);
    assert!(!s.schedule(50, true, 1));
    assert_eq!(s.running_thread.as_ref().unwrap().id, 0);
    assert_eq!(s.counter, 50);
    let mut alone = scheduler_with(1);
    assert!(!alone.schedule(50, true, 0));
    assert_eq!(alone.running_thread.as_ref().unwrap().id, 0);
}

#[test]
fn blocking_and_unblocking() {
    let mut s = scheduler_with(3);
    assert!(s.block_running_thread(0));
    assert_eq!(s.running_thread.as_ref().unwrap().id, 1);
    assert_eq!(ids(s.blocked_threads.as_ref().unwrap()), vec![0]);
    assert_eq!(ids(s.runnable_threads.as_ref().unwrap()), vec![2]);
    s.unblock_thread_by_id(0, 0);
    assert_eq!(ids(s.blocked_threads.as_ref().unwrap()), Vec::<usize>::new());
    assert_eq!(ids(s.runnable_threads.as_ref().unwrap()), vec![0, 2]);
}

#[test]
fn terminating_runs_the_next_thread() {
    let mut s = scheduler_with(2);
    s.terminate_running_thread(7);
    assert_eq!(s.running_thread.as_ref().unwrap().id, 1);
    let t = s.terminated_threads.as_ref().unwrap();
    assert_eq!(t.len(), 1);
    assert_eq!(t[0].0.id, 0);
    assert_eq!(t[0].1, 7);
}

#[test]
fn processes_by_id() {
    let mut s = scheduler_with(1);
    assert_eq!(s.allocate_process_id(), 0);
    assert_eq!(s.allocate_process_id(), 1);
    assert!(s.process_by_id(0).is_some());
    assert!(s.process_by_id(5).is_none());
    assert_eq!(s.running_process().id, 0);
}

#[test]
fn threads_start_with_an_initial_frame() {
    let t = Thread::new_with_stack(0, 1, 0x3000, stack_at(0x20_0000), 0xC0DE, &[1, 2]);
    assert_eq!(t.kernel_stack.elems, vec![2, 1, 0, 0xC0DE, 0, 0, 0, 0, 0, 0, 0]);
    assert_eq!(t.tcb.esp0 as usize, 0x20_0000 + 4096);
    assert_eq!(t.tcb.esp as usize, 0x20_0000 + 4096 - 4 * 11);
    assert_eq!(t.tcb.cr3, 0x3000);
    let mut t = t;
    let mut gdt = GlobalDescriptorTable::new();
    t.set_tls(0x1234_5678, &mut gdt);
    assert_eq!(t.tcb.tls, 0x1234_5678);
    let e = gdt.0[TLS_IDX];
    assert_eq!(e.base_0_15, 0x5678);
    assert_eq!(e.base_16_23, 0x34);
    assert_eq!(e.base_24_31, 0x12);
}

#[test]
fn processes_open_standard_files() {
    let mut p = Process::new(3, VirtAddrSpace::empty(0x2000, true), console());
    assert!(p.check_fd(0) && p.check_fd(2) && !p.check_fd(3) && !p.check_fd(-1));
    assert_eq!(p.opened_file(1).offset, None);
    assert_eq!(p.open_file_by_node(file()), Ok(3));
    assert_eq!(p.opened_file(3).offset, Some(0));
    let dir = Node { index: 1, node_type: NodeType::Dir, id_in_fs: Some(2) };
    assert_eq!(p.open_file_by_node(dir), Err(OpenFileErr::UnsupportedFileType));
    for _ in 4..MAX_OPENED_FILES {
        assert!(p.open_file_by_node(file()).is_ok());
    }
    assert_eq!(p.open_file_by_node(file()), Err(OpenFileErr::MaxOpenedFiles));
}

#[test]
fn seeking_moves_only_seekable_files() {
    let mut p = Process::new(3, VirtAddrSpace::empty(0x2000, true), console());
    let fd = p.open_file_by_node(file()).unwrap();
    let f = p.opened_file(fd);
    assert_eq!(f.seek_abs(100), 100);
    assert_eq!(f.seek_rel(20), 120);
    assert_eq!(f.write(5), 5);
    assert_eq!(f.position(), 125);
    assert_eq!(f.read(Ok(10)), Ok(10));
    assert_eq!(f.offset, Some(135));
    let tty = p.opened_file(0);
    assert_eq!(tty.seek_abs(100), 0);
    assert_eq!(tty.seek_rel(100), 0);
    assert_eq!(tty.offset, None);
}

fn frames(n: u32) -> PmmStack {
    let mut pages = PmmStack::new(64);
    for i in 0..n {
        pages.push_page(0x0100_0000 + 0x1000 * i);
    }
    pages
}

#[test]
fn process_mem_map_searches_past_conflicts() {
    let s = PROGRAM_REGION_START;
    let mut p = Process::new(3, VirtAddrSpace::empty(0x2000, true), console());
    let mut tables = vec![0x0900_0000u32, 0x0900_1000, 0x0900_2000];
    let mut pages = frames(16);
    let m = p.mem_map(0x2000, &mut tables, &mut pages).unwrap();
    assert_eq!((m.region.start, m.region.end), (s, s + 0x2000));
    // The slot of the region gets a page table, the last one set aside.
    assert_eq!(tables, vec![0x0900_0000, 0x0900_1000]);
    assert_eq!(p.vas.pgtbls_phys[s >> 22], 0x0900_2000);
    assert_eq!(p.vas.virt_to_phys(s as u32), Some(0x0100_F000));
    assert_eq!(p.vas.virt_to_phys((s + 0x1000) as u32), Some(0x0100_E000));
    assert_eq!(p.vas.virt_to_phys((s + 0x2000) as u32), None);
    assert_eq!(pages.pages.len(), 14);
    let n = p.mem_map(0x2000, &mut tables, &mut pages).unwrap();
    assert_eq!((n.region.start, n.region.end), (s + 0x2000, s + 0x4000));
    assert_eq!(tables.len(), 2);
    assert_eq!(p.vas.virt_to_phys((s + 0x3000) as u32), Some(0x0100_C000));
    p.program_segments.push(lib::memory_region::Region { start: s + 0x4000, end: s + 0x5801 });
    let o = p.mem_map(0x2000, &mut tables, &mut pages).unwrap();
    assert_eq!((o.region.start, o.region.end), (s + 0x6000, s + 0x8000));
    assert_eq!(p.mem_mappings.len(), 3);
    assert_eq!(p.vas.virt_to_phys((s + 0x4000) as u32), None);
    assert_eq!(p.vas.virt_to_phys((s + 0x6000) as u32), Some(0x0100_B000));
}

#[test]
fn process_mem_map_takes_a_table_for_the_next_slot() {
    // A mapping that ends on a 4 MiB boundary also gets a table for the
    // slot after it.
    let mut p = Process::new(3, VirtAddrSpace::empty(0x2000, true), console());
    p.program_region = lib::memory_region::Region { start: 0x0840_0000 - 0x1000, end: PROGRAM_REGION_END };
    let mut tables = vec![0x0900_0000u32, 0x0900_1000, 0x0900_2000];
    let mut pages = frames(4);
    let m = p.mem_map(0x1000, &mut tables, &mut pages).unwrap();
    assert_eq!(m.region.end, 0x0840_0000);
    assert_eq!(tables, vec![0x0900_0000]);
    assert_eq!(p.vas.pgtbls_phys[0x21], 0x0900_1000);
    assert_eq!(p.vas.virt_to_phys(0x083F_F000), Some(0x0100_3000));
}

#[test]
fn task_mem_map_and_usermode_stack() {
    let mut t = Task::with_empty_stack(1, VirtAddrSpace::empty(0x2000, true), 0x30_0000, console());
    assert_eq!(t.opened_files.len(), 3);
    assert!(t.kernel_stack.elems.is_empty());
    assert_eq!((t.kernel_stack.region_start, t.kernel_stack.region_end), (0x30_0000, 0x31_0000));
    let mut tables = vec![0x0900_0000u32, 0x0900_1000];
    let mut pages = frames(8);
    let m = t.mem_map(0x3000, &mut tables, &mut pages).unwrap();
    assert_eq!(m.region.start, USERMODE_REGION_START);
    assert_eq!(m.region.end, USERMODE_REGION_START + 0x3000);
    assert_eq!(tables, vec![0x0900_0000]);
    assert_eq!(t.vas.virt_to_phys((USERMODE_REGION_START + 0x2000) as u32), Some(0x0100_5000));
    let ustack = Stack::from_region(USERMODE_STACK_REGION_END - 4096, USERMODE_STACK_REGION_END);
    t.set_up_usermode_stack(ustack, &[0xA0, 0xB0], &[0xE0]);
    assert_eq!(t.usermode_stack.as_ref().unwrap().elems, vec![0, 0xE0, 0, 0xB0, 0xA0, 2]);
}

#[test]
fn task_manager_rotates_and_moves_by_blocked_position() {
    let mk = |id: usize| Task::with_empty_stack(id, VirtAddrSpace::empty(0x2000, true), 0x40_0000 + 0x1_0000 * id, console());
    let mut tm = TaskManager::new();
    tm.init_vecs();
    assert_eq!(tm.allocate_task_id(), 0);
    tm.run_task(mk(0));
    tm.add_runnable_task(mk(1));
    tm.add_runnable_task(mk(2));
    tm.add_runnable_task(mk(3));
    assert!(tm.block_this_task(0));
    assert_eq!(tm.this_task().id, 1);
    // Task 0 is blocked at position 0; the runnable task at that position
    // moves to the front.
    tm.unblock_task(0);
    let r: Vec<usize> = tm.runnable_tasks.as_ref().unwrap().iter().map(|t| t.id).collect();
    assert_eq!(r, vec![2, 3]);
    assert_eq!(tm.blocked_tasks.as_ref().unwrap().len(), 1);
    assert!(tm.schedule(50, true, 0));
    assert_eq!(tm.this_task().id, 2);
    tm.terminate_this_task(0);
    assert_eq!(tm.this_task().id, 3);
    assert_eq!(tm.terminated_tasks.as_ref().unwrap()[0].0.id, 2);
}

#[test]
fn program_segments_are_recorded_and_paged() {
    let s = PROGRAM_REGION_START;
    let mut p = Process::new(3, VirtAddrSpace::empty(0x2000, true), console());
    let seg = lib::elf::ProgInfo { in_file_at: 0x1000, in_file_size: 0x80, in_mem_at: s + 0x1234, in_mem_size: 0x2000 };
    let pages = p.add_program_segment(&seg, true).unwrap();
    assert_eq!((pages.start, pages.end), (s + 0x1000, s + 0x4000));
    let mut tables = vec![0x0900_0000u32];
    let mut free = frames(8);
    p.map_segment_pages(pages, &mut tables, &mut free);
    assert!(tables.is_empty());
    assert_eq!(p.vas.pgtbls_phys[s >> 22], 0x0900_0000);
    assert_eq!(p.vas.virt_to_phys((s + 0x1000) as u32), Some(0x0100_7000));
    assert_eq!(p.vas.virt_to_phys((s + 0x3000) as u32), Some(0x0100_5000));
    assert_eq!(p.vas.virt_to_phys(s as u32), None);
    // Mapping the same pages again takes no table and no frame.
    p.map_segment_pages(pages, &mut tables, &mut free);
    assert_eq!(free.pages.len(), 5);
    assert_eq!(p.vas.virt_to_phys((s + 0x1000) as u32), Some(0x0100_7000));
    let note = lib::elf::ProgInfo { in_file_at: 0, in_file_size: 0, in_mem_at: 0x10, in_mem_size: 0x20 };
    assert!(p.add_program_segment(&note, false).is_none());
    assert_eq!(p.program_segments.len(), 2);
    assert_eq!((p.program_segments[0].start, p.program_segments[0].end), (s + 0x1234, s + 0x3234));
    assert_eq!((p.program_segments[1].start, p.program_segments[1].end), (0x10, 0x30));
}

#[test]
fn system_calls_on_open_files() {
    let mut t = Task::with_empty_stack(5, VirtAddrSpace::empty(0x2000, true), 0x50_0000, console());
    let fd = t.open_file_by_node(file()).unwrap();
    assert_eq!(lib::syscall::write(&mut t, fd, 10), Ok(10));
    assert_eq!(seek(&mut t, Seek::Rel, fd, 5), Ok(15));
    assert_eq!(seek(&mut t, Seek::Abs, fd, 2), Ok(2));
    assert_eq!(lib::syscall::write(&mut t, 1, 3), Ok(3));
    assert_eq!(seek(&mut t, Seek::Abs, 1, 7), Ok(0));
    assert_eq!(lib::syscall::write(&mut t, 40, 1), Err(WriteErr::BadFd));
    assert_eq!(seek(&mut t, Seek::Abs, -1, 1), Err(SeekErr::BadFd));
    assert_eq!(is_tty(&t, 1, true, b"tty0"), Ok(true));
    assert_eq!(is_tty(&t, 1, false, b"tty0"), Ok(false));
    assert_eq!(is_tty(&t, 1, true, b"blk0"), Ok(false));
    assert_eq!(is_tty(&t, 9, true, b"tty0"), Err(IsTtyErr::BadFd));
    assert_eq!(get_pid(&t), 5);
}

#[test]
fn process_usermode_stack_holds_the_arguments() {
    let mut p = Process::new(3, VirtAddrSpace::empty(0x2000, true), console());
    let mut pages = lib::pmm_stack::PmmStack::new(4);
    pages.push_page(0x0090_0000);
    let start = p.usermode_stack.start;
    let (top, words) = p.set_up_usermode_stack(&[0xA0, 0xB0], &[0xE0], 0x0030_0000, &mut pages);
    assert_eq!(words, vec![2, 0xA0, 0xB0, 0, 0xE0, 0]);
    assert_eq!(top, p.usermode_stack.end - 4 * 6);
    assert_eq!(p.vas.virt_to_phys(start as u32), Some(0x0090_0000));
    assert!(pages.pages.is_empty());
}

#[test]
fn read_system_call_steps() {
    let mut t = Task::with_empty_stack(6, VirtAddrSpace::empty(0x2000, true), 0x60_0000, console());
    let fd = t.open_file_by_node(file()).unwrap();
    assert_eq!(read_step(&mut t, fd, Ok(4)), ReadStep::Done(Ok(4)));
    assert_eq!(t.opened_files[fd as usize].offset, Some(4));
    assert_eq!(read_step(&mut t, fd, Err(ReadFileErr::Block)), ReadStep::BlockAndRetry);
    assert_eq!(read_step(&mut t, fd, Err(ReadFileErr::NotReadable)), ReadStep::Done(Err(ReadErr::NotReadable)));
    assert_eq!(t.opened_files[fd as usize].offset, Some(4));
    assert_eq!(read_step(&mut t, 17, Ok(1)), ReadStep::Done(Err(ReadErr::BadFd)));
    // The console has no position.
    assert_eq!(read_step(&mut t, 0, Ok(1)), ReadStep::Done(Ok(1)));
    assert_eq!(t.opened_files[0].offset, None);
    assert_eq!(read_file_err(lib::char_device::ReadErr::Block), ReadFileErr::Block);
    assert_eq!(read_file_err(lib::char_device::ReadErr::InvalidLen), ReadFileErr::InvalidOffsetOrLength);
    assert_eq!(read_file_err(lib::char_device::ReadErr::NotReadable), ReadFileErr::NotReadable);
}

#[test]
fn loading_a_segment_records_and_maps_it() {
    let s = PROGRAM_REGION_START;
    let mut p = Process::new(4, VirtAddrSpace::empty(0x2000, true), console());
    let seg = lib::elf::ProgInfo { in_file_at: 0, in_file_size: 0x10, in_mem_at: s + 0x0800, in_mem_size: 0x1000 };
    let mut tables = vec![0x0900_0000u32];
    let mut free = frames(4);
    let pages = p.load_segment(&seg, &mut tables, &mut free);
    assert_eq!((pages.start, pages.end), (s, s + 0x2000));
    assert_eq!(p.program_segments.len(), 1);
    assert_eq!((p.program_segments[0].start, p.program_segments[0].end), (s + 0x0800, s + 0x1800));
    assert!(tables.is_empty());
    assert_eq!(p.vas.pgtbls_phys[s >> 22], 0x0900_0000);
    assert_eq!(p.vas.virt_to_phys(s as u32), Some(0x0100_3000));
    assert_eq!(p.vas.virt_to_phys((s + 0x1000) as u32), Some(0x0100_2000));
    assert_eq!(free.pages.len(), 2);
}

#[test]
fn filled_stack_and_clone() {
    let t = Task::with_filled_stack(7, VirtAddrSpace::empty(0x2000, true), 0x70_0000, console(), 0xAB, &[1, 2]);
    assert_eq!(t.kernel_stack.elems, vec![2, 1, 0, 0xAB, 0, 0, 0, 0, 0, 0, 0]);
    assert_eq!(t.opened_files.len(), 3);
    assert!(t.program_segments.is_empty() && t.mem_mappings.is_empty());
    assert_eq!((t.tcb.pgdir_phys, t.tcb.esp0, t.tcb.esp), (0, 0, 0));

    let mut parent = Task::with_empty_stack(8, VirtAddrSpace::empty(0x2000, true), 0x80_0000, console());
    parent.open_file_by_node(file()).unwrap();
    parent.program_segments.push(lib::memory_region::Region { start: 0x0800_0000, end: 0x0800_1000 });
    parent.set_up_usermode_stack(
        Stack::from_region(USERMODE_STACK_REGION_END - 4096, USERMODE_STACK_REGION_END),
        &[0xA0],
        &[],
    );
    parent.tls = 0x1234;
    let child = parent.clone(9, VirtAddrSpace::empty(0x3000, true), 0x90_0000, 0xCD, &[5]);
    assert_eq!(child.id, 9);
    assert_eq!(child.vas.pgdir_phys, 0x3000);
    assert_eq!(child.kernel_stack.elems, vec![5, 0, 0xCD, 0, 0, 0, 0, 0, 0, 0]);
    assert_eq!(child.kernel_stack.region_start, 0x90_0000);
    assert_eq!(child.opened_files.len(), 4);
    assert_eq!(child.opened_files[3].node, file());
    assert_eq!(child.program_segments.len(), 1);
    assert_eq!(child.usermode_stack.as_ref().unwrap().elems, parent.usermode_stack.as_ref().unwrap().elems);
    assert_eq!(child.tls, 0);
}
