use vstd::prelude::*;

use crate::bits::{lemma_page_up, page_up};
use crate::fs::Node;
use crate::gdt::{GlobalDescriptorTable, TLS_IDX};
use crate::memory_region::Region;
use crate::process::{last_conflict, mapping_regions, ends_below_top, clamp0, MemMapping, OpenFileErr, OpenedFile, valid_fd};
use crate::stack::Stack;
use crate::thread::{initial_frame, initial_stack};
use crate::pmm_stack::PmmStack;
use crate::vas::{can_map_fresh, mapped_fresh, VirtAddrSpace};

verus! {

/// A task's user mode stack: the page at 3 GiB.
pub const USERMODE_STACK_REGION_START: usize = 0xC000_0000;
pub const USERMODE_STACK_REGION_END: usize = 0xC000_1000;

/// Where user mode code and data may lie: from 128 MiB up to 3 GiB + 4 MiB.
pub const USERMODE_REGION_START: usize = 0x0800_0000;
pub const USERMODE_REGION_END: usize = 0xC040_0000;

/// Size in bytes of a task's kernel stack.
pub const KERNEL_STACK_SIZE: usize = 65536;

/// A task may have at most this many files open.
pub const MAX_OPENED_FILES: usize = 32;

/// What the task switch code saves and restores for a task: the page
/// directory, and where the kernel stack starts and where its top is.
#[derive(Clone, Copy, Debug, PartialEq, Eq, Structural)]
pub struct TaskControlBlock {
    pub pgdir_phys: u32,
    pub esp0: u32,
    pub esp: u32,
}

impl TaskControlBlock {
    pub fn default() -> (r: TaskControlBlock)
        ensures
            r == (TaskControlBlock { pgdir_phys: 0, esp0: 0, esp: 0 }),
    {
        TaskControlBlock { pgdir_phys: 0, esp0: 0, esp: 0 }
    }
}

/// A task: an address space with a program, memory mappings, a kernel and a
/// user mode stack, a TLS pointer and open files.
pub struct Task {
    pub id: usize,
    pub vas: VirtAddrSpace,
    pub program_segments: Vec<Region>,
    pub mem_mappings: Vec<MemMapping>,
    pub kernel_stack: Stack,
    pub usermode_stack: Option<Stack>,
    pub tls: u32,
    pub opened_files: Vec<OpenedFile>,
    pub tcb: TaskControlBlock,
}

/// The words a new task's user mode stack holds, from the bottom up: a null
/// pointer ending the environment, the environment pointers (last one
/// first), a null pointer ending the arguments, the argument pointers (last
/// one first) and the number of arguments.
pub open spec fn usermode_init_stack(argv: Seq<u32>, environ: Seq<u32>) -> Seq<u32> {
    seq![0u32] + environ.reverse() + seq![0u32] + argv.reverse() + seq![argv.len() as u32]
}

/// The search of a task for `len` bytes of free user memory, from the
/// candidate `start..end`: the candidate restarts past the stack, a
/// program segment or a mapping that it conflicts with, looking at each in
/// turn, then grows by a page; it is taken once it is `len` bytes long.
/// The search fails where the candidate would pass the top of the address
/// space.
pub open spec fn task_search(
    stack: Region,
    segs: Seq<Region>,
    maps: Seq<Region>,
    len: usize,
    start: usize,
    end: usize,
) -> Option<Region>
    decreases clamp0(usize::MAX - start), clamp0(len - (end - start)),
{
    if end < start {
        None
    } else if end - start >= len {
        Some(Region { start, end })
    } else {
        let c0 = Region { start, end };
        let c1 = if c0.spec_conflicts_with(stack) {
            Region { start: stack.end, end: stack.end }
        } else {
            c0
        };
        let c2 = pass_over(segs, c1, segs.len() as int);
        let c3 = pass_over(maps, c2, maps.len() as int);
        if c3.end + 4096 > usize::MAX || c3.start < start || (c3.start == start && c3.end != end) {
            None
        } else {
            task_search(stack, segs, maps, len, c3.start, (c3.end + 4096) as usize)
        }
    }
}

/// The candidate after looking at the first `n` regions of `rs` in turn:
/// each one it conflicts with moves it, empty, to that region's page-rounded
/// end.
pub open spec fn pass_over(rs: Seq<Region>, c: Region, n: int) -> Region
    decreases n,
{
    if n <= 0 {
        c
    } else {
        let prev = pass_over(rs, c, n - 1);
        if prev.spec_conflicts_with(rs[n - 1]) {
            Region { start: page_up(rs[n - 1].end), end: page_up(rs[n - 1].end) }
        } else {
            prev
        }
    }
}

proof fn lemma_pass_over_moves(rs: Seq<Region>, c: Region, n: int)
    requires
        ends_below_top(rs),
        n <= rs.len(),
        c.start <= c.end,
    ensures
        pass_over(rs, c, n).start <= pass_over(rs, c, n).end,
        pass_over(rs, c, n) == c || (pass_over(rs, c, n).start > c.start && pass_over(rs, c, n).start
            == pass_over(rs, c, n).end),
    decreases n,
{
    if n > 0 {
        lemma_pass_over_moves(rs, c, n - 1);
        let prev = pass_over(rs, c, n - 1);
        if prev.spec_conflicts_with(rs[n - 1]) {
            lemma_page_up(rs[n - 1].end);
        }
    }
}

/// Passing over regions that end below the top keeps a page-aligned
/// candidate page-aligned.
proof fn lemma_pass_over_aligned(rs: Seq<Region>, c: Region, n: int)
    requires
        ends_below_top(rs),
        n <= rs.len(),
        c.start % 4096 == 0,
        c.end % 4096 == 0,
    ensures
        pass_over(rs, c, n).start % 4096 == 0,
        pass_over(rs, c, n).end % 4096 == 0,
    decreases n,
{
    if n > 0 {
        lemma_pass_over_aligned(rs, c, n - 1);
        if pass_over(rs, c, n - 1).spec_conflicts_with(rs[n - 1]) {
            lemma_page_up(rs[n - 1].end);
        }
    }
}

/// The search, started with a page-aligned candidate and a stack that ends
/// on a page boundary, finds a page-aligned region.
proof fn lemma_task_search_aligned(stack: Region, segs: Seq<Region>, maps: Seq<Region>, len: usize, start: usize, end: usize)
    requires
        stack.end % 4096 == 0,
        ends_below_top(segs),
        ends_below_top(maps),
        start % 4096 == 0,
        end % 4096 == 0,
    ensures
        task_search(stack, segs, maps, len, start, end) matches Some(r) ==> r.start % 4096 == 0 && r.end % 4096 == 0
            && r.start <= r.end,
    decreases clamp0(usize::MAX - start), clamp0(len - (end - start)),
{
    if end < start {
    } else if end - start >= len {
    } else {
        let c0 = Region { start, end };
        let c1 = if c0.spec_conflicts_with(stack) {
            Region { start: stack.end, end: stack.end }
        } else {
            c0
        };
        lemma_pass_over_aligned(segs, c1, segs.len() as int);
        let c2 = pass_over(segs, c1, segs.len() as int);
        lemma_pass_over_aligned(maps, c2, maps.len() as int);
        let c3 = pass_over(maps, c2, maps.len() as int);
        if !(c3.end + 4096 > usize::MAX || c3.start < start || (c3.start == start && c3.end != end)) {
            lemma_task_search_aligned(stack, segs, maps, len, c3.start, (c3.end + 4096) as usize);
        }
    }
}

/// The page table slots that a task's mapping ending at `end` makes sure
/// of: those its 4 MiB-rounded extent covers.
pub open spec fn task_slots_end(end: usize) -> int {
    (end + 0x3F_FFFF) / 0x40_0000
}

fn pass_over_regions(rs: &Vec<Region>, c: Region) -> (r: Region)
    requires
        ends_below_top(rs@),
    ensures
        r == pass_over(rs@, c, rs@.len() as int),
{
    let mut cur = c;
    let mut i: usize = 0;
    while i < rs.len()
        invariant
            i <= rs@.len(),
            ends_below_top(rs@),
            cur == pass_over(rs@, c, i as int),
        decreases rs@.len() - i,
    {
        if cur.conflicts_with(&rs[i]) {
            proof {
                assert(rs@[i as int].end <= usize::MAX - 0xFFF);
            }
            let e = (rs[i].end + 0xFFF) & !0xFFFusize;
            cur = Region { start: e, end: e };
        }
        i = i + 1;
    }
    cur
}

fn pass_over_mappings(ms: &Vec<MemMapping>, c: Region) -> (r: Region)
    requires
        ends_below_top(mapping_regions(ms@)),
    ensures
        r == pass_over(mapping_regions(ms@), c, ms@.len() as int),
{
    let ghost rs = mapping_regions(ms@);
    let mut cur = c;
    let mut i: usize = 0;
    while i < ms.len()
        invariant
            i <= ms@.len(),
            rs == mapping_regions(ms@),
            rs.len() == ms@.len(),
            ends_below_top(rs),
            cur == pass_over(rs, c, i as int),
        decreases ms@.len() - i,
    {
        assert(rs[i as int] == ms@[i as int].region);
        if cur.conflicts_with(&ms[i].region) {
            proof {
                assert(rs[i as int].end <= usize::MAX - 0xFFF);
            }
            let e = (ms[i].region.end + 0xFFF) & !0xFFFusize;
            cur = Region { start: e, end: e };
        }
        i = i + 1;
    }
    cur
}

/// The same stack, or none in both: the same region and the same words.
pub open spec fn same_stack(a: Option<Stack>, b: Option<Stack>) -> bool {
    match (a, b) {
        (Some(x), Some(y)) => x.region_start == y.region_start && x.region_end == y.region_end && x.elems@
            == y.elems@,
        (None, None) => true,
        _ => false,
    }
}

/// A copy of `v`.
fn copy_vec<T: Copy>(v: &Vec<T>) -> (r: Vec<T>)
    ensures
        r@ == v@,
{
    let mut out: Vec<T> = Vec::new();
    let mut i: usize = 0;
    while i < v.len()
        invariant
            i <= v@.len(),
            out@ == v@.take(i as int),
        decreases v@.len() - i,
    {
        out.push(v[i]);
        assert(v@.take(i as int + 1) =~= v@.take(i as int).push(v@[i as int]));
        i = i + 1;
    }
    assert(v@.take(i as int) =~= v@);
    out
}

/// A kernel stack over the 64 KiB block at `start`, laid out so that the
/// first switch to its task calls `entry` with `entry_args`.
fn filled_kernel_stack(start: usize, entry: u32, entry_args: &[u32]) -> (s: Stack)
    requires
        start + KERNEL_STACK_SIZE <= usize::MAX,
        entry_args@.len() + 9 <= KERNEL_STACK_SIZE / 4,
    ensures
        s.wf(),
        s.region_start == start,
        s.region_end == start + KERNEL_STACK_SIZE,
        s.elems@ == initial_stack(entry, entry_args@),
{
    let mut st = Stack::from_region(start, start + KERNEL_STACK_SIZE);
    let mut i = entry_args.len();
    while i > 0
        invariant
            i <= entry_args@.len(),
            st.wf(),
            st.region_start == start,
            st.region_end == start + KERNEL_STACK_SIZE,
            st.capacity() == KERNEL_STACK_SIZE / 4,
            entry_args@.len() + 9 <= st.capacity(),
            st.elems@ == entry_args@.subrange(i as int, entry_args@.len() as int).reverse(),
        decreases i,
    {
        i = i - 1;
        let _ = st.push(entry_args[i]);
        assert(entry_args@.subrange(i as int, entry_args@.len() as int).reverse() =~= entry_args@.subrange(
            i + 1,
            entry_args@.len() as int,
        ).reverse().push(entry_args@[i as int]));
    }
    assert(entry_args@.subrange(0, entry_args@.len() as int) =~= entry_args@);
    let ghost before = st.elems@;
    let _ = st.push(0);
    let _ = st.push(entry);
    let _ = st.push(0);
    let _ = st.push(0);
    let _ = st.push(0);
    let _ = st.push(0);
    let _ = st.push(0);
    let _ = st.push(0);
    let _ = st.push(0);
    assert(st.elems@ =~= before + initial_frame(entry));
    st
}

impl Task {
    /// A task with an empty kernel stack over the 64 KiB block at
    /// `kernel_stack_start` (page-aligned, allocated by the caller), no user
    /// mode stack, and the console node `console` open as standard input,
    /// output and error.
    pub fn with_empty_stack(id: usize, vas: VirtAddrSpace, kernel_stack_start: usize, console: Node) -> (r: Task)
        requires
            console.node_type.spec_is_openable(),
            kernel_stack_start % 4096 == 0,
            kernel_stack_start + KERNEL_STACK_SIZE <= usize::MAX,
        ensures
            r.id == id,
            r.vas == vas,
            r.kernel_stack.wf(),
            r.kernel_stack.region_start == kernel_stack_start,
            r.kernel_stack.region_end == kernel_stack_start + KERNEL_STACK_SIZE,
            r.kernel_stack.elems@ == Seq::<u32>::empty(),
            r.usermode_stack is None,
            r.tls == 0,
            r.tcb == (TaskControlBlock { pgdir_phys: 0, esp0: 0, esp: 0 }),
            r.program_segments@.len() == 0,
            r.mem_mappings@.len() == 0,
            r.opened_files@ == seq![OpenedFile::new_spec(console), OpenedFile::new_spec(console), OpenedFile::new_spec(console)],
    {
        let kernel_stack = Stack::from_region(kernel_stack_start, kernel_stack_start + KERNEL_STACK_SIZE);
        let mut task = Task {
            id,
            vas,
            program_segments: Vec::new(),
            mem_mappings: Vec::new(),
            kernel_stack,
            usermode_stack: None,
            tls: 0,
            opened_files: Vec::new(),
            tcb: TaskControlBlock::default(),
        };
        let _ = task.open_file_by_node(console);
        let _ = task.open_file_by_node(console);
        let _ = task.open_file_by_node(console);
        assert(task.opened_files@ =~= seq![OpenedFile::new_spec(console), OpenedFile::new_spec(console), OpenedFile::new_spec(console)]);
        task
    }

    /// A task whose kernel stack is laid out so that the first switch to it
    /// calls `entry` with `entry_args`.
    pub fn with_filled_stack(
        id: usize,
        vas: VirtAddrSpace,
        kernel_stack_start: usize,
        console: Node,
        entry: u32,
        entry_args: &[u32],
    ) -> (r: Task)
        requires
            console.node_type.spec_is_openable(),
            kernel_stack_start % 4096 == 0,
            kernel_stack_start + KERNEL_STACK_SIZE <= usize::MAX,
            entry_args@.len() + 9 <= KERNEL_STACK_SIZE / 4,
        ensures
            r.id == id,
            r.vas == vas,
            r.kernel_stack.wf(),
            r.kernel_stack.region_start == kernel_stack_start,
            r.kernel_stack.region_end == kernel_stack_start + KERNEL_STACK_SIZE,
            r.kernel_stack.elems@ == initial_stack(entry, entry_args@),
            r.usermode_stack is None,
            r.tls == 0,
            r.tcb == (TaskControlBlock { pgdir_phys: 0, esp0: 0, esp: 0 }),
            r.program_segments@.len() == 0,
            r.mem_mappings@.len() == 0,
            r.opened_files@ == seq![OpenedFile::new_spec(console), OpenedFile::new_spec(console), OpenedFile::new_spec(console)],
    {
        let mut task = Task::with_empty_stack(id, vas, kernel_stack_start, console);
        task.kernel_stack = filled_kernel_stack(kernel_stack_start, entry, entry_args);
        task
    }

    /// A clone of the task under ID `clone_id`, to run `entry` with
    /// `entry_args` when first switched to: it gets `vas`, the copy of the
    /// task's address space (its memory copied by the caller), a new kernel
    /// stack over the 64 KiB block at `kernel_stack_start` laid out as
    /// [`Task::with_filled_stack`] lays it out, and copies of the task's
    /// program segments, memory mappings, user mode stack and open files.
    /// The TLS pointer and the control block start afresh.
    pub fn clone(&self, clone_id: usize, vas: VirtAddrSpace, kernel_stack_start: usize, entry: u32, entry_args: &[u32]) -> (r: Task)
        requires
            kernel_stack_start % 4096 == 0,
            kernel_stack_start + KERNEL_STACK_SIZE <= usize::MAX,
            entry_args@.len() + 9 <= KERNEL_STACK_SIZE / 4,
        ensures
            r.id == clone_id,
            r.vas == vas,
            r.kernel_stack.wf(),
            r.kernel_stack.region_start == kernel_stack_start,
            r.kernel_stack.region_end == kernel_stack_start + KERNEL_STACK_SIZE,
            r.kernel_stack.elems@ == initial_stack(entry, entry_args@),
            same_stack(r.usermode_stack, self.usermode_stack),
            r.tls == 0,
            r.tcb == (TaskControlBlock { pgdir_phys: 0, esp0: 0, esp: 0 }),
            r.program_segments@ == self.program_segments@,
            r.mem_mappings@ == self.mem_mappings@,
            r.opened_files@ == self.opened_files@,
    {
        let kernel_stack = filled_kernel_stack(kernel_stack_start, entry, entry_args);
        let usermode_stack = match &self.usermode_stack {
            Some(st) => Some(Stack { region_start: st.region_start, region_end: st.region_end, elems: copy_vec(&st.elems) }),
            None => None,
        };
        Task {
            id: clone_id,
            vas,
            program_segments: copy_vec(&self.program_segments),
            mem_mappings: copy_vec(&self.mem_mappings),
            kernel_stack,
            usermode_stack,
            tls: 0,
            opened_files: copy_vec(&self.opened_files),
            tcb: TaskControlBlock::default(),
        }
    }

    /// Sets the TLS pointer and loads it into the TLS descriptor of `gdt`.
    pub fn set_tls(&mut self, value: usize, gdt: &mut GlobalDescriptorTable)
        requires
            old(gdt).wf(),
        ensures
            final(self).tls == value as u32,
            final(self).id == old(self).id,
            final(gdt).wf(),
            final(gdt).0@[TLS_IDX as int].spec_base() == value as u32,
            forall|i: int| 0 <= i < final(gdt).0@.len() && i != TLS_IDX ==> final(gdt).0@[i] == old(gdt).0@[i],
    {
        self.tls = value as u32;
        self.load_tls(gdt);
    }

    /// Puts the task's TLS pointer into the TLS descriptor of `gdt`.
    pub fn load_tls(&self, gdt: &mut GlobalDescriptorTable)
        requires
            old(gdt).wf(),
        ensures
            final(gdt).wf(),
            final(gdt).0@[TLS_IDX as int].spec_base() == self.tls,
            forall|i: int| 0 <= i < final(gdt).0@.len() && i != TLS_IDX ==> final(gdt).0@[i] == old(gdt).0@[i],
    {
        let mut entry = gdt.0[TLS_IDX];
        entry.set_base(self.tls);
        gdt.0.set(TLS_IDX, entry);
    }

    /// Sets up the user mode stack over `stack` (the caller maps its pages):
    /// the null-terminated environment and argument pointer arrays and the
    /// argument count, as [`usermode_init_stack`] lays them out.
    pub fn set_up_usermode_stack(&mut self, stack: Stack, argv: &[u32], environ: &[u32])
        requires
            stack.wf(),
            stack.elems@.len() == 0,
            argv@.len() + environ@.len() + 3 <= stack.capacity(),
            argv@.len() <= u32::MAX,
        ensures
            final(self).usermode_stack matches Some(s) && s.wf() && s.region_start == stack.region_start
                && s.region_end == stack.region_end && s.elems@ == usermode_init_stack(argv@, environ@),
            final(self).id == old(self).id,
            final(self).vas == old(self).vas,
            final(self).kernel_stack == old(self).kernel_stack,
            final(self).opened_files@ == old(self).opened_files@,
            final(self).mem_mappings@ == old(self).mem_mappings@,
            final(self).program_segments@ == old(self).program_segments@,
    {
        let mut s = stack;
        let _ = s.push(0);
        let mut i = environ.len();
        while i > 0
            invariant
                i <= environ@.len(),
                s.wf(),
                s.region_start == stack.region_start,
                s.region_end == stack.region_end,
                argv@.len() + environ@.len() + 3 <= s.capacity(),
                s.elems@ == seq![0u32] + environ@.subrange(i as int, environ@.len() as int).reverse(),
            decreases i,
        {
            i = i - 1;
            let _ = s.push(environ[i]);
            assert(environ@.subrange(i as int, environ@.len() as int).reverse() =~= environ@.subrange(
                i + 1,
                environ@.len() as int,
            ).reverse().push(environ@[i as int]));
        }
        assert(environ@.subrange(0, environ@.len() as int) =~= environ@);
        let _ = s.push(0);
        let ghost mid = s.elems@;
        let mut j = argv.len();
        while j > 0
            invariant
                j <= argv@.len(),
                s.wf(),
                s.region_start == stack.region_start,
                s.region_end == stack.region_end,
                argv@.len() + environ@.len() + 3 <= s.capacity(),
                mid.len() == environ@.len() + 2,
                s.elems@ == mid + argv@.subrange(j as int, argv@.len() as int).reverse(),
            decreases j,
        {
            j = j - 1;
            let _ = s.push(argv[j]);
            assert(argv@.subrange(j as int, argv@.len() as int).reverse() =~= argv@.subrange(
                j + 1,
                argv@.len() as int,
            ).reverse().push(argv@[j as int]));
        }
        assert(argv@.subrange(0, argv@.len() as int) =~= argv@);
        let _ = s.push(argv.len() as u32);
        assert(s.elems@ =~= usermode_init_stack(argv@, environ@));
        self.usermode_stack = Some(s);
    }

    /// The search for `len` bytes of free user memory.
    pub open spec fn spec_mem_map(&self, len: usize) -> Option<Region> {
        task_search(
            Region { start: USERMODE_STACK_REGION_START, end: USERMODE_STACK_REGION_END },
            self.program_segments@,
            mapping_regions(self.mem_mappings@),
            len,
            USERMODE_REGION_START,
            USERMODE_REGION_START,
        )
    }

    /// Finds `len` bytes of free user memory and records a mapping of them;
    /// `None` when the region found does not lie in user memory or the
    /// search runs past the top of the address space.
    fn reserve_mapping(&mut self, len: usize) -> (r: Option<MemMapping>)
        requires
            len % 4096 == 0,
            ends_below_top(old(self).program_segments@),
            ends_below_top(mapping_regions(old(self).mem_mappings@)),
        ensures
            r == (match old(self).spec_mem_map(len) {
                Some(reg) => if reg.spec_is_in(Region { start: USERMODE_REGION_START, end: USERMODE_REGION_END }) {
                    Some(MemMapping { region: reg })
                } else {
                    None::<MemMapping>
                },
                None => None::<MemMapping>,
            }),
            final(self).mem_mappings@ == (match r {
                Some(m) => old(self).mem_mappings@.push(m),
                None => old(self).mem_mappings@,
            }),
            final(self).id == old(self).id,
            final(self).vas == old(self).vas,
            final(self).program_segments@ == old(self).program_segments@,
            final(self).opened_files@ == old(self).opened_files@,
            final(self).kernel_stack == old(self).kernel_stack,
    {
        let ghost target = self.spec_mem_map(len);
        let stack = Region { start: USERMODE_STACK_REGION_START, end: USERMODE_STACK_REGION_END };
        let mut cand = Region { start: USERMODE_REGION_START, end: USERMODE_REGION_START };
        loop
            invariant
                self == old(self),
                ends_below_top(self.program_segments@),
                ends_below_top(mapping_regions(self.mem_mappings@)),
                stack == (Region { start: USERMODE_STACK_REGION_START, end: USERMODE_STACK_REGION_END }),
                target == self.spec_mem_map(len),
                target == task_search(
                    stack,
                    self.program_segments@,
                    mapping_regions(self.mem_mappings@),
                    len,
                    cand.start,
                    cand.end,
                ),
            ensures
                self == old(self),
                target == Some(cand),
            decreases clamp0(usize::MAX - cand.start), clamp0(len - (cand.end - cand.start)),
        {
            if cand.end < cand.start {
                return None;
            }
            if cand.end - cand.start >= len {
                break;
            }
            let start0 = cand.start;
            let end0 = cand.end;
            let mut c = cand;
            if c.conflicts_with(&stack) {
                c = Region { start: stack.end, end: stack.end };
            }
            proof {
                lemma_pass_over_moves(self.program_segments@, c, self.program_segments@.len() as int);
            }
            let c2 = pass_over_regions(&self.program_segments, c);
            proof {
                lemma_pass_over_moves(mapping_regions(self.mem_mappings@), c2, self.mem_mappings@.len() as int);
            }
            let c3 = pass_over_mappings(&self.mem_mappings, c2);
            if c3.end > usize::MAX - 4096 || c3.start < start0 || (c3.start == start0 && c3.end != end0) {
                return None;
            }
            cand = Region { start: c3.start, end: c3.end + 4096 };
        }
        let user = Region { start: USERMODE_REGION_START, end: USERMODE_REGION_END };
        if !cand.is_in(&user) {
            return None;
        }
        let m = MemMapping { region: cand };
        self.mem_mappings.push(m);
        Some(m)
    }

    /// Finds `len` bytes of free user memory, records a mapping of them and
    /// maps them: the 4 MiB slots that the region, rounded out to 4 MiB,
    /// covers get page tables popped from `tables` where they have none,
    /// and its pages get frames popped from the stack of free pages.
    /// `None`, with nothing changed, when the region found does not lie in
    /// user memory or the search runs past the top of the address space.
    /// None of the region's pages may be mapped already.
    pub fn mem_map(&mut self, len: usize, tables: &mut Vec<u32>, pages: &mut PmmStack) -> (r: Option<MemMapping>)
        requires
            len % 4096 == 0,
            ends_below_top(old(self).program_segments@),
            ends_below_top(mapping_regions(old(self).mem_mappings@)),
            old(self).vas.wf(),
            old(pages).wf(),
            forall|i: int| 0 <= i < old(pages).pages@.len() ==> #[trigger] old(pages).pages@[i] & 0xFFFu32 == 0,
            forall|i: int| 0 <= i < old(tables)@.len() ==> #[trigger] old(tables)@[i] & 0xFFFu32 == 0,
            match old(self).spec_mem_map(len) {
                Some(reg) => reg.spec_is_in(Region { start: USERMODE_REGION_START, end: USERMODE_REGION_END })
                    ==> can_map_fresh(
                    old(self).vas,
                    reg.start as u32,
                    reg.end as u32,
                    task_slots_end(reg.end),
                    old(tables)@,
                    old(pages).pages@,
                ),
                None => true,
            },
        ensures
            r == (match old(self).spec_mem_map(len) {
                Some(reg) => if reg.spec_is_in(Region { start: USERMODE_REGION_START, end: USERMODE_REGION_END }) {
                    Some(MemMapping { region: reg })
                } else {
                    None::<MemMapping>
                },
                None => None::<MemMapping>,
            }),
            final(self).mem_mappings@ == (match r {
                Some(m) => old(self).mem_mappings@.push(m),
                None => old(self).mem_mappings@,
            }),
            match r {
                Some(m) => mapped_fresh(
                    old(self).vas,
                    final(self).vas,
                    m.region.start as u32,
                    m.region.end as u32,
                    task_slots_end(m.region.end),
                    old(tables)@,
                    final(tables)@,
                    old(pages).pages@,
                    final(pages).pages@,
                ),
                None => final(self).vas == old(self).vas && final(tables)@ == old(tables)@ && final(pages).pages@
                    == old(pages).pages@,
            },
            final(self).vas.wf(),
            final(pages).wf(),
            final(pages).capacity == old(pages).capacity,
            final(self).id == old(self).id,
            final(self).program_segments@ == old(self).program_segments@,
            final(self).opened_files@ == old(self).opened_files@,
            final(self).kernel_stack == old(self).kernel_stack,
    {
        proof {
            lemma_task_search_aligned(
                Region { start: USERMODE_STACK_REGION_START, end: USERMODE_STACK_REGION_END },
                self.program_segments@,
                mapping_regions(self.mem_mappings@),
                len,
                USERMODE_REGION_START,
                USERMODE_REGION_START,
            );
        }
        match self.reserve_mapping(len) {
            None => None,
            Some(m) => {
                let start = m.region.start as u32;
                let end = m.region.end as u32;
                let slots_end = (m.region.end + 0x3F_FFFF) / 0x40_0000;
                proof {
                    crate::vas::lemma_pde_index_is_slot(start);
                    assert(start / 0x40_0000u32 <= slots_end) by (nonlinear_arith)
                        requires
                            start <= end,
                            end == m.region.end,
                            slots_end == (m.region.end + 0x3F_FFFF) / 0x40_0000,
                    ;
                    if start < end {
                        crate::vas::lemma_pde_index_is_slot((end - 1) as u32);
                        assert(((end - 1) as u32) / 0x40_0000u32 < slots_end) by (nonlinear_arith)
                            requires
                                start < end,
                                end == m.region.end,
                                slots_end == (m.region.end + 0x3F_FFFF) / 0x40_0000,
                        ;
                    }
                }
                self.vas.map_fresh_region(start, end, slots_end, tables, pages);
                Some(m)
            },
        }
    }

    /// Updates the control block from the address space and the kernel
    /// stack, and returns it.
    pub fn raw_tcb(&mut self) -> (r: TaskControlBlock)
        requires
            old(self).kernel_stack.wf(),
            old(self).kernel_stack.region_end <= u32::MAX,
        ensures
            r == final(self).tcb,
            r == (TaskControlBlock {
                pgdir_phys: old(self).vas.pgdir_phys,
                esp0: old(self).kernel_stack.region_end as u32,
                esp: old(self).kernel_stack.spec_top() as u32,
            }),
            final(self).id == old(self).id,
            final(self).kernel_stack == old(self).kernel_stack,
            final(self).opened_files@ == old(self).opened_files@,
    {
        let top = self.kernel_stack.top();
        self.tcb = TaskControlBlock {
            pgdir_phys: self.vas.pgdir_phys,
            esp0: self.kernel_stack.bottom() as u32,
            esp: top as u32,
        };
        self.tcb
    }

    /// Opens `node` under the lowest descriptor not yet used.
    pub fn open_file_by_node(&mut self, node: Node) -> (r: Result<i32, OpenFileErr>)
        requires
            old(self).opened_files@.len() <= MAX_OPENED_FILES,
        ensures
            final(self).opened_files@.len() <= MAX_OPENED_FILES,
            final(self).id == old(self).id,
            final(self).vas == old(self).vas,
            final(self).kernel_stack == old(self).kernel_stack,
            final(self).usermode_stack == old(self).usermode_stack,
            final(self).tls == old(self).tls,
            final(self).tcb == old(self).tcb,
            final(self).program_segments@ == old(self).program_segments@,
            final(self).mem_mappings@ == old(self).mem_mappings@,
            !node.node_type.spec_is_openable() ==> r == Err::<i32, OpenFileErr>(OpenFileErr::UnsupportedFileType)
                && final(self).opened_files@ == old(self).opened_files@,
            node.node_type.spec_is_openable() && old(self).opened_files@.len() == MAX_OPENED_FILES
                ==> r == Err::<i32, OpenFileErr>(OpenFileErr::MaxOpenedFiles) && final(self).opened_files@
                == old(self).opened_files@,
            node.node_type.spec_is_openable() && old(self).opened_files@.len() < MAX_OPENED_FILES
                ==> r == Ok::<i32, OpenFileErr>(old(self).opened_files@.len() as i32) && final(self).opened_files@
                == old(self).opened_files@.push(OpenedFile::new_spec(node)),
            r matches Ok(fd) ==> valid_fd(final(self).opened_files@, fd as int) && !valid_fd(
                final(self).opened_files@,
                fd + 1,
            ),
    {
        if node.node_type.is_openable() {
            if self.opened_files.len() == MAX_OPENED_FILES {
                return Err(OpenFileErr::MaxOpenedFiles);
            }
            let fd = self.opened_files.len() as i32;
            self.opened_files.push(OpenedFile::new(node, node.node_type.is_seekable()));
            Ok(fd)
        } else {
            Err(OpenFileErr::UnsupportedFileType)
        }
    }

    /// The file open under `fd`, which must be a valid descriptor.
    pub fn opened_file(&mut self, fd: i32) -> (r: &mut OpenedFile)
        requires
            0 <= fd < old(self).opened_files@.len(),
        ensures
            *r == old(self).opened_files@[fd as int],
            final(self).opened_files@ == old(self).opened_files@.update(fd as int, *final(r)),
            final(self).id == old(self).id,
            final(self).mem_mappings@ == old(self).mem_mappings@,
    {
        &mut self.opened_files[fd as usize]
    }

    /// Whether `fd` is a descriptor of an open file.
    pub fn check_fd(&self, fd: i32) -> (r: bool)
        ensures
            r == valid_fd(self.opened_files@, fd as int),
    {
        0 <= fd && (fd as u32 as usize) < self.opened_files.len()
    }
}

} // verus!
