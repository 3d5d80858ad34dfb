use vstd::prelude::*;

use crate::fs::{Node, ReadFileErr};
use crate::bits::{lemma_page_down, lemma_page_up, page_down, page_up};
use crate::elf::ProgInfo;
use crate::memory_region::Region;
use crate::pmm_stack::PmmStack;
use crate::vas::{
    can_map_fresh, empty_entries, lemma_missing_pages_alike, lemma_new_table_keeps_translations, lemma_page_indices,
    mapped_fresh, missing_pages, nth_page, pde_index, VirtAddrSpace,
};

verus! {

/// A process may have at most this many files open.
pub const MAX_OPENED_FILES: i32 = 32;

/// Where a process's program may be loaded and memory mapped: from 128 MiB
/// to 3 GiB + 4 MiB.
pub const PROGRAM_REGION_START: usize = 0x0800_0000;
pub const PROGRAM_REGION_END: usize = 0xC040_0000;

/// A process's user mode stack: the page at 3 GiB.
pub const USERMODE_STACK_START: usize = 0xC000_0000;
pub const USERMODE_STACK_END: usize = 0xC000_1000;

/// An anonymous memory mapping of a process.
#[derive(Clone, Copy, Debug)]
pub struct MemMapping {
    pub region: Region,
}

#[derive(Clone, Copy, Debug, PartialEq, Eq, Structural)]
pub enum OpenFileErr {
    MaxOpenedFiles,
    UnsupportedFileType,
}

/// A file opened by a process: its node and, for seekable files, the
/// position of the next read or write.
#[derive(Clone, Copy, Debug)]
pub struct OpenedFile {
    pub node: Node,
    pub offset: Option<usize>,
}

impl OpenedFile {
    pub fn new(node: Node, seekable: bool) -> (r: OpenedFile)
        ensures
            r.node == node,
            r.offset == (if seekable { Some(0usize) } else { None }),
    {
        OpenedFile { node, offset: if seekable { Some(0) } else { None } }
    }

    /// Moves the position to `new_offset` and returns it; a file without a
    /// position is left as it is and 0 is returned.
    pub fn seek_abs(&mut self, new_offset: usize) -> (r: usize)
        ensures
            final(self).node == old(self).node,
            match old(self).offset {
                Some(_) => final(self).offset == Some(new_offset) && r == new_offset,
                None => final(self).offset is None && r == 0,
            },
    {
        match self.offset {
            Some(_) => {
                self.offset = Some(new_offset);
                new_offset
            },
            None => 0,
        }
    }

    /// Moves the position forward by `add_offset` and returns it; a file
    /// without a position is left as it is and 0 is returned.
    pub fn seek_rel(&mut self, add_offset: usize) -> (r: usize)
        requires
            old(self).offset matches Some(o) ==> o + add_offset <= usize::MAX,
        ensures
            final(self).node == old(self).node,
            match old(self).offset {
                Some(o) => final(self).offset == Some((o + add_offset) as usize) && r == o + add_offset,
                None => final(self).offset is None && r == 0,
            },
    {
        match self.offset {
            Some(o) => {
                let n = o + add_offset;
                self.offset = Some(n);
                n
            },
            None => 0,
        }
    }

    /// Where the next read or write of the file starts: its position, or 0
    /// for a file without one.
    pub fn position(&self) -> (r: usize)
        ensures
            r == match self.offset {
                Some(o) => o,
                None => 0usize,
            },
    {
        match self.offset {
            Some(o) => o,
            None => 0,
        }
    }

    /// Accounts for a read of the file that started at [`Self::position`]:
    /// on success the position moves past the bytes read, whose number is
    /// returned.
    pub fn read(&mut self, fs_result: Result<usize, ReadFileErr>) -> (r: Result<usize, ReadFileErr>)
        requires
            fs_result matches Ok(n) ==> (old(self).offset matches Some(o) ==> o + n <= usize::MAX),
        ensures
            r == fs_result,
            final(self).node == old(self).node,
            match fs_result {
                Ok(n) => match old(self).offset {
                    Some(o) => final(self).offset == Some((o + n) as usize),
                    None => final(self).offset is None,
                },
                Err(_) => final(self).offset == old(self).offset,
            },
    {
        match fs_result {
            Ok(n) => {
                self.seek_rel(n);
                Ok(n)
            },
            Err(e) => Err(e),
        }
    }

    /// Accounts for a write of `len` bytes that started at
    /// [`Self::position`]: the position moves past them, and `len` is
    /// returned.
    pub fn write(&mut self, len: usize) -> (r: usize)
        requires
            old(self).offset matches Some(o) ==> o + len <= usize::MAX,
        ensures
            r == len,
            final(self).node == old(self).node,
            match old(self).offset {
                Some(o) => final(self).offset == Some((o + len) as usize),
                None => final(self).offset is None,
            },
    {
        self.seek_rel(len);
        len
    }
}

/// A user process: its address space, where its program and stack lie, its
/// memory mappings and its open files.
pub struct Process {
    pub id: usize,
    pub new_thread_id: usize,
    pub vas: VirtAddrSpace,
    pub program_region: Region,
    pub program_segments: Vec<Region>,
    pub usermode_stack: Region,
    pub mem_mappings: Vec<MemMapping>,
    pub opened_files: Vec<OpenedFile>,
}


/// The first `n` regions of `rs` all end at least a page below the top of
/// the address space.
pub open spec fn ends_below_top(rs: Seq<Region>) -> bool {
    forall|i: int| 0 <= i < rs.len() ==> #[trigger] rs[i].end <= usize::MAX - 0xFFF
}

/// Among the first `n` regions of `rs`, the page-rounded end of the last one
/// that conflicts with `reg`.
pub open spec fn last_conflict(rs: Seq<Region>, reg: Region, n: int) -> Option<usize>
    decreases n,
{
    if n <= 0 {
        None
    } else if rs[n - 1].spec_conflicts_with(reg) {
        Some(page_up(rs[n - 1].end))
    } else {
        last_conflict(rs, reg, n - 1)
    }
}

/// The regions of memory mappings.
pub open spec fn mapping_regions(ms: Seq<MemMapping>) -> Seq<Region> {
    ms.map_values(|m: MemMapping| m.region)
}

/// Where the search for free memory restarts after finding that `reg`
/// conflicts with the stack, a program segment or a mapping: the end of the
/// last of them that it looks at, mappings last; `None` when nothing
/// conflicts.
pub open spec fn restart_after(stack: Region, segs: Seq<Region>, maps: Seq<Region>, reg: Region) -> Option<usize> {
    match last_conflict(maps, reg, maps.len() as int) {
        Some(x) => Some(x),
        None => match last_conflict(segs, reg, segs.len() as int) {
            Some(x) => Some(x),
            None => if stack.spec_conflicts_with(reg) {
                Some(stack.end)
            } else {
                None
            },
        },
    }
}

pub open spec fn clamp0(x: int) -> int {
    if x < 0 {
        0
    } else {
        x
    }
}

/// The search for `len` bytes of free memory below `p_end`, from the
/// candidate `start..last`: the candidate grows a page at a time and
/// restarts past whatever it conflicts with; it is taken once it is `len`
/// bytes long, and the search fails when it starts at or past `p_end` or
/// would grow past the top of the address space.
pub open spec fn mem_map_search(
    p_end: usize,
    stack: Region,
    segs: Seq<Region>,
    maps: Seq<Region>,
    len: usize,
    start: usize,
    last: usize,
) -> Option<Region>
    decreases clamp0(p_end - start), clamp0(len - (last - start)),
{
    if start >= p_end {
        None
    } else if last < start || last - start > len {
        None
    } else if last - start == len {
        Some(Region { start, end: last })
    } else {
        let reg = Region { start, end: last };
        match restart_after(stack, segs, maps, reg) {
            None => if last + 4096 > usize::MAX {
                None
            } else {
                mem_map_search(p_end, stack, segs, maps, len, start, (last + 4096) as usize)
            },
            Some(x) => if x <= start || x + 4096 > usize::MAX {
                None
            } else {
                mem_map_search(p_end, stack, segs, maps, len, x, (x + 4096) as usize)
            },
        }
    }
}

/// A region found by the search is `len` bytes long and starts at or after
/// where the search started and below `p_end`.
pub proof fn lemma_mem_map_search_found(
    p_end: usize,
    stack: Region,
    segs: Seq<Region>,
    maps: Seq<Region>,
    len: usize,
    start: usize,
    last: usize,
)
    ensures
        mem_map_search(p_end, stack, segs, maps, len, start, last) matches Some(r) ==> r.end - r.start
            == len && start <= r.start < p_end,
    decreases clamp0(p_end - start), clamp0(len - (last - start)),
{
    if start >= p_end {
    } else if last < start || last - start > len {
    } else if last - start == len {
    } else {
        let reg = Region { start, end: last };
        match restart_after(stack, segs, maps, reg) {
            None => if last + 4096 <= usize::MAX {
                lemma_mem_map_search_found(p_end, stack, segs, maps, len, start, (last + 4096) as usize);
            },
            Some(x) => if !(x <= start || x + 4096 > usize::MAX) {
                lemma_mem_map_search_found(p_end, stack, segs, maps, len, x, (x + 4096) as usize);
            },
        }
    }
}

/// The page-rounded end of a conflicting region is page-aligned.
proof fn lemma_last_conflict_aligned(rs: Seq<Region>, reg: Region, n: int)
    requires
        ends_below_top(rs),
        n <= rs.len(),
    ensures
        last_conflict(rs, reg, n) matches Some(x) ==> x % 4096 == 0,
    decreases n,
{
    if n > 0 {
        if rs[n - 1].spec_conflicts_with(reg) {
            lemma_page_up(rs[n - 1].end);
        } else {
            lemma_last_conflict_aligned(rs, reg, n - 1);
        }
    }
}

/// The search, started on a page boundary with a stack that ends on one,
/// finds a region that starts on a page boundary.
proof fn lemma_mem_map_search_aligned(
    p_end: usize,
    stack: Region,
    segs: Seq<Region>,
    maps: Seq<Region>,
    len: usize,
    start: usize,
    last: usize,
)
    requires
        start % 4096 == 0,
        stack.end % 4096 == 0,
        ends_below_top(segs),
        ends_below_top(maps),
    ensures
        mem_map_search(p_end, stack, segs, maps, len, start, last) matches Some(r) ==> r.start % 4096 == 0,
    decreases clamp0(p_end - start), clamp0(len - (last - start)),
{
    if start >= p_end {
    } else if last < start || last - start > len {
    } else if last - start == len {
    } else {
        let reg = Region { start, end: last };
        lemma_last_conflict_aligned(segs, reg, segs.len() as int);
        lemma_last_conflict_aligned(maps, reg, maps.len() as int);
        match restart_after(stack, segs, maps, reg) {
            None => if last + 4096 <= usize::MAX {
                lemma_mem_map_search_aligned(p_end, stack, segs, maps, len, start, (last + 4096) as usize);
            },
            Some(x) => if !(x <= start || x + 4096 > usize::MAX) {
                lemma_mem_map_search_aligned(p_end, stack, segs, maps, len, x, (x + 4096) as usize);
            },
        }
    }
}

/// The page table slots that a mapping ending at `end` makes sure of: up
/// to and including the slot after the one that `end` lies in.
pub open spec fn process_slots_end(end: usize) -> int {
    end / 0x40_0000 + 1
}

/// A conflict found among regions that end below the top of the address
/// space restarts the search past the start of the candidate.
proof fn lemma_last_conflict_past(rs: Seq<Region>, reg: Region, n: int)
    requires
        ends_below_top(rs),
        n <= rs.len(),
    ensures
        last_conflict(rs, reg, n) matches Some(x) ==> x > reg.start,
    decreases n,
{
    if n > 0 {
        if rs[n - 1].spec_conflicts_with(reg) {
            lemma_page_up(rs[n - 1].end);
        } else {
            lemma_last_conflict_past(rs, reg, n - 1);
        }
    }
}

/// The page-rounded end of the last region of `rs` that conflicts with
/// `reg`.
fn find_last_conflict(rs: &Vec<Region>, reg: &Region) -> (r: Option<usize>)
    requires
        ends_below_top(rs@),
    ensures
        r == last_conflict(rs@, *reg, rs@.len() as int),
{
    let mut found: Option<usize> = None;
    let mut i: usize = 0;
    while i < rs.len()
        invariant
            i <= rs@.len(),
            ends_below_top(rs@),
            found == last_conflict(rs@, *reg, i as int),
        decreases rs@.len() - i,
    {
        if rs[i].conflicts_with(reg) {
            let e = rs[i].end;
            proof {
                assert(rs@[i as int].end <= usize::MAX - 0xFFF);
            }
            found = Some((e + 0xFFF) & !0xFFFusize);
        }
        i = i + 1;
    }
    found
}

/// The page-rounded end of the last mapping of `ms` that conflicts with
/// `reg`.
fn find_last_mapping_conflict(ms: &Vec<MemMapping>, reg: &Region) -> (r: Option<usize>)
    requires
        ends_below_top(mapping_regions(ms@)),
    ensures
        r == last_conflict(mapping_regions(ms@), *reg, ms@.len() as int),
{
    let ghost rs = mapping_regions(ms@);
    let mut found: Option<usize> = None;
    let mut i: usize = 0;
    while i < ms.len()
        invariant
            i <= ms@.len(),
            rs == mapping_regions(ms@),
            rs.len() == ms@.len(),
            ends_below_top(rs),
            found == last_conflict(rs, *reg, i as int),
        decreases ms@.len() - i,
    {
        assert(rs[i as int] == ms@[i as int].region);
        if ms[i].region.conflicts_with(reg) {
            let e = ms[i].region.end;
            proof {
                assert(rs[i as int].end <= usize::MAX - 0xFFF);
            }
            found = Some((e + 0xFFF) & !0xFFFusize);
        }
        i = i + 1;
    }
    found
}

impl Process {
    /// The search for `len` bytes of free memory in this process's program
    /// region.
    pub open spec fn spec_mem_map(&self, len: usize) -> Option<Region> {
        mem_map_search(
            self.program_region.end,
            self.usermode_stack,
            self.program_segments@,
            mapping_regions(self.mem_mappings@),
            len,
            self.program_region.start,
            self.program_region.start,
        )
    }

    /// Finds `len` bytes of free memory in the program region and records a
    /// mapping of them; `None` when the search runs out of the region.
    fn reserve_mapping(&mut self, len: usize) -> (r: Option<MemMapping>)
        requires
            len % 4096 == 0,
            ends_below_top(old(self).program_segments@),
            ends_below_top(mapping_regions(old(self).mem_mappings@)),
        ensures
            r == (match old(self).spec_mem_map(len) {
                Some(reg) => Some(MemMapping { region: reg }),
                None => None::<MemMapping>,
            }),
            final(self).mem_mappings@ == (match r {
                Some(m) => old(self).mem_mappings@.push(m),
                None => old(self).mem_mappings@,
            }),
            final(self).id == old(self).id,
            final(self).new_thread_id == old(self).new_thread_id,
            final(self).vas == old(self).vas,
            final(self).program_region == old(self).program_region,
            final(self).program_segments@ == old(self).program_segments@,
            final(self).usermode_stack == old(self).usermode_stack,
            final(self).opened_files@ == old(self).opened_files@,
    {
        let ghost target = self.spec_mem_map(len);
        let p_end = self.program_region.end;
        let mut start = self.program_region.start;
        let mut last = start;
        loop
            invariant
                len % 4096 == 0,
                p_end == self.program_region.end,
                ends_below_top(self.program_segments@),
                ends_below_top(mapping_regions(self.mem_mappings@)),
                self == old(self),
                target == self.spec_mem_map(len),
                target == mem_map_search(
                    p_end,
                    self.usermode_stack,
                    self.program_segments@,
                    mapping_regions(self.mem_mappings@),
                    len,
                    start,
                    last,
                ),
            decreases clamp0(p_end - start), clamp0(len - (last - start)),
        {
            if start >= p_end {
                return None;
            }
            if last < start || last - start > len {
                return None;
            }
            if last - start == len {
                let m = MemMapping { region: Region { start, end: last } };
                self.mem_mappings.push(m);
                return Some(m);
            }
            let reg = Region { start, end: last };
            let mut restart: Option<usize> = None;
            if self.usermode_stack.conflicts_with(&reg) {
                restart = Some(self.usermode_stack.end);
            }
            match find_last_conflict(&self.program_segments, &reg) {
                Some(x) => {
                    restart = Some(x);
                },
                None => {},
            }
            match find_last_mapping_conflict(&self.mem_mappings, &reg) {
                Some(x) => {
                    restart = Some(x);
                },
                None => {},
            }
            proof {
                assert(restart == restart_after(
                    self.usermode_stack,
                    self.program_segments@,
                    mapping_regions(self.mem_mappings@),
                    reg,
                ));
            }
            proof {
                lemma_last_conflict_past(self.program_segments@, reg, self.program_segments@.len() as int);
                lemma_last_conflict_past(
                    mapping_regions(self.mem_mappings@),
                    reg,
                    self.mem_mappings@.len() as int,
                );
            }
            match restart {
                None => {
                    if last > usize::MAX - 4096 {
                        return None;
                    }
                    last = last + 4096;
                },
                Some(x) => {
                    if x <= start || x > usize::MAX - 4096 {
                        return None;
                    }
                    start = x;
                    last = x + 4096;
                },
            }
        }
    }

    /// Finds `len` bytes of free memory in the program region, records a
    /// mapping of them and maps them: the 4 MiB slots from the one of its
    /// start up to the one after the slot of its end get page tables popped
    /// from `tables` where they have none, and its pages get frames popped
    /// from the stack of free pages.  `None`, with nothing changed, when the
    /// search runs out of the region.  None of the region's pages may be
    /// mapped already.
    pub fn mem_map(&mut self, len: usize, tables: &mut Vec<u32>, pages: &mut PmmStack) -> (r: Option<MemMapping>)
        requires
            len % 4096 == 0,
            ends_below_top(old(self).program_segments@),
            ends_below_top(mapping_regions(old(self).mem_mappings@)),
            old(self).program_region.start % 4096 == 0,
            old(self).usermode_stack.end % 4096 == 0,
            old(self).vas.wf(),
            old(pages).wf(),
            forall|i: int| 0 <= i < old(pages).pages@.len() ==> #[trigger] old(pages).pages@[i] & 0xFFFu32 == 0,
            forall|i: int| 0 <= i < old(tables)@.len() ==> #[trigger] old(tables)@[i] & 0xFFFu32 == 0,
            match old(self).spec_mem_map(len) {
                Some(reg) => reg.end + 0x40_0000 <= u32::MAX && can_map_fresh(
                    old(self).vas,
                    reg.start as u32,
                    reg.end as u32,
                    process_slots_end(reg.end),
                    old(tables)@,
                    old(pages).pages@,
                ),
                None => true,
            },
        ensures
            r == (match old(self).spec_mem_map(len) {
                Some(reg) => Some(MemMapping { region: reg }),
                None => None::<MemMapping>,
            }),
            final(self).mem_mappings@ == (match r {
                Some(m) => old(self).mem_mappings@.push(m),
                None => old(self).mem_mappings@,
            }),
            match r {
                Some(m) => mapped_fresh(
                    old(self).vas,
                    final(self).vas,
                    m.region.start as u32,
                    m.region.end as u32,
                    process_slots_end(m.region.end),
                    old(tables)@,
                    final(tables)@,
                    old(pages).pages@,
                    final(pages).pages@,
                ),
                None => final(self).vas == old(self).vas && final(tables)@ == old(tables)@ && final(pages).pages@
                    == old(pages).pages@,
            },
            final(self).vas.wf(),
            final(pages).wf(),
            final(pages).capacity == old(pages).capacity,
            final(self).id == old(self).id,
            final(self).new_thread_id == old(self).new_thread_id,
            final(self).program_region == old(self).program_region,
            final(self).program_segments@ == old(self).program_segments@,
            final(self).usermode_stack == old(self).usermode_stack,
            final(self).opened_files@ == old(self).opened_files@,
    {
        proof {
            lemma_mem_map_search_found(
                self.program_region.end,
                self.usermode_stack,
                self.program_segments@,
                mapping_regions(self.mem_mappings@),
                len,
                self.program_region.start,
                self.program_region.start,
            );
            lemma_mem_map_search_aligned(
                self.program_region.end,
                self.usermode_stack,
                self.program_segments@,
                mapping_regions(self.mem_mappings@),
                len,
                self.program_region.start,
                self.program_region.start,
            );
        }
        match self.reserve_mapping(len) {
            None => None,
            Some(m) => {
                let start = m.region.start as u32;
                let end = m.region.end as u32;
                let slots_end = m.region.end / 0x40_0000 + 1;
                proof {
                    assert(end % 4096 == 0) by (nonlinear_arith)
                        requires
                            m.region.start % 4096 == 0,
                            len % 4096 == 0,
                            m.region.end - m.region.start == len,
                            end == m.region.end,
                    ;
                    crate::vas::lemma_pde_index_is_slot(start);
                    assert(slots_end <= 1024);
                    if start < end {
                        crate::vas::lemma_pde_index_is_slot((end - 1) as u32);
                        assert(((end - 1) as u32) / 0x40_0000u32 <= end / 0x40_0000u32) by (nonlinear_arith)
                            requires
                                start < end,
                        ;
                    }
                    assert(start / 0x40_0000u32 <= end / 0x40_0000u32) by (nonlinear_arith)
                        requires
                            start <= end,
                    ;
                }
                self.vas.map_fresh_region(start, end, slots_end, tables, pages);
                Some(m)
            },
        }
    }

    /// A process with nothing loaded, whose standard input, output and error
    /// (descriptors 0, 1 and 2) are the console node `console`.
    pub fn new(id: usize, vas: VirtAddrSpace, console: Node) -> (r: Process)
        requires
            console.node_type.spec_is_openable(),
        ensures
            r.id == id,
            r.new_thread_id == 0,
            r.vas == vas,
            r.program_region == (Region { start: PROGRAM_REGION_START, end: PROGRAM_REGION_END }),
            r.program_segments@.len() == 0,
            r.usermode_stack == (Region { start: USERMODE_STACK_START, end: USERMODE_STACK_END }),
            r.mem_mappings@.len() == 0,
            r.opened_files@.len() == 3,
            forall|fd: int| 0 <= fd < 3 ==> #[trigger] r.opened_files@[fd] == OpenedFile::new_spec(console),
    {
        let mut process = Process {
            id,
            new_thread_id: 0,
            vas,
            program_region: Region { start: PROGRAM_REGION_START, end: PROGRAM_REGION_END },
            program_segments: Vec::new(),
            usermode_stack: Region { start: USERMODE_STACK_START, end: USERMODE_STACK_END },
            mem_mappings: Vec::new(),
            opened_files: Vec::new(),
        };
        let _ = process.open_file_by_node(console);
        let _ = process.open_file_by_node(console);
        let _ = process.open_file_by_node(console);
        process
    }

    pub fn allocate_thread_id(&mut self) -> (r: usize)
        requires
            old(self).new_thread_id < usize::MAX,
        ensures
            r == old(self).new_thread_id,
            final(self).new_thread_id == old(self).new_thread_id + 1,
            final(self).id == old(self).id,
            final(self).opened_files@ == old(self).opened_files@,
            final(self).mem_mappings@ == old(self).mem_mappings@,
    {
        let id = self.new_thread_id;
        self.new_thread_id = self.new_thread_id + 1;
        id
    }

    /// Opens `node` under the lowest descriptor not yet used.
    pub fn open_file_by_node(&mut self, node: Node) -> (r: Result<i32, OpenFileErr>)
        requires
            old(self).opened_files@.len() <= MAX_OPENED_FILES,
        ensures
            final(self).opened_files@.len() <= MAX_OPENED_FILES,
            final(self).id == old(self).id,
            final(self).new_thread_id == old(self).new_thread_id,
            final(self).vas == old(self).vas,
            final(self).program_region == old(self).program_region,
            final(self).program_segments@ == old(self).program_segments@,
            final(self).usermode_stack == old(self).usermode_stack,
            final(self).mem_mappings@ == old(self).mem_mappings@,
            !node.node_type.spec_is_openable() ==> r == Err::<i32, OpenFileErr>(OpenFileErr::UnsupportedFileType)
                && final(self).opened_files@ == old(self).opened_files@,
            node.node_type.spec_is_openable() && old(self).opened_files@.len() == MAX_OPENED_FILES
                ==> r == Err::<i32, OpenFileErr>(OpenFileErr::MaxOpenedFiles) && final(self).opened_files@
                == old(self).opened_files@,
            node.node_type.spec_is_openable() && old(self).opened_files@.len() < MAX_OPENED_FILES
                ==> r == Ok::<i32, OpenFileErr>(old(self).opened_files@.len() as i32) && final(self).opened_files@
                == old(self).opened_files@.push(OpenedFile::new_spec(node)),
            r matches Ok(fd) ==> valid_fd(final(self).opened_files@, fd as int) && !valid_fd(
                final(self).opened_files@,
                fd + 1,
            ),
    {
        if node.node_type.is_openable() {
            if self.opened_files.len() == MAX_OPENED_FILES as usize {
                return Err(OpenFileErr::MaxOpenedFiles);
            }
            let fd = self.opened_files.len() as i32;
            self.opened_files.push(OpenedFile::new(node, node.node_type.is_seekable()));
            Ok(fd)
        } else {
            Err(OpenFileErr::UnsupportedFileType)
        }
    }

    /// The file open under `fd`, which must be a valid descriptor.
    pub fn opened_file(&mut self, fd: i32) -> (r: &mut OpenedFile)
        requires
            0 <= fd < old(self).opened_files@.len(),
        ensures
            *r == old(self).opened_files@[fd as int],
            final(self).opened_files@ == old(self).opened_files@.update(fd as int, *final(r)),
            final(self).id == old(self).id,
            final(self).new_thread_id == old(self).new_thread_id,
            final(self).mem_mappings@ == old(self).mem_mappings@,
            final(self).program_segments@ == old(self).program_segments@,
    {
        &mut self.opened_files[fd as usize]
    }

    /// Whether `fd` is a descriptor of an open file.
    pub fn check_fd(&self, fd: i32) -> (r: bool)
        ensures
            r == valid_fd(self.opened_files@, fd as int),
    {
        0 <= fd && (fd as u32 as usize) < self.opened_files.len()
    }
}

/// Whether `fd` is a descriptor of one of the open files `files`.
pub open spec fn valid_fd(files: Seq<OpenedFile>, fd: int) -> bool {
    0 <= fd < files.len()
}

/// Opening a file in a process that can open one more hands out a
/// descriptor that `check_fd` accepts, while the descriptor after it is
/// refused; descriptors valid before stay valid.
pub proof fn lemma_open_then_check_fd(before: Process, after: Process, node: Node, fd: i32)
    requires
        node.node_type.spec_is_openable(),
        before.opened_files@.len() < MAX_OPENED_FILES,
        after.opened_files@ == before.opened_files@.push(OpenedFile::new_spec(node)),
        fd == before.opened_files@.len() as i32,
    ensures
        valid_fd(after.opened_files@, fd as int),
        !valid_fd(after.opened_files@, fd + 1),
        forall|k: int| #[trigger] valid_fd(before.opened_files@, k) ==> valid_fd(after.opened_files@, k),
{
    lemma_opened_fd_is_last(before.opened_files@, OpenedFile::new_spec(node), fd as int);
}

/// The descriptor that opening a file hands out is valid, and it is the
/// last one: the descriptor after it is not.
pub proof fn lemma_opened_fd_is_last(files: Seq<OpenedFile>, opened: OpenedFile, fd: int)
    requires
        fd == files.len(),
    ensures
        valid_fd(files.push(opened), fd),
        !valid_fd(files.push(opened), fd + 1),
        forall|k: int| #[trigger] valid_fd(files, k) ==> valid_fd(files.push(opened), k),
{
}

impl OpenedFile {
    pub open spec fn new_spec(node: Node) -> OpenedFile {
        OpenedFile { node, offset: if node.node_type.spec_is_seekable() { Some(0usize) } else { None } }
    }
}

impl Process {
    /// Records where program segment `seg` lies in memory.  For a segment
    /// that is loaded, returns the pages it spans, from the page that holds
    /// its first byte to the page boundary at or after its end: those must
    /// be mapped before the segment's bytes are read into them.  A loaded
    /// segment must lie in the program region and apart from the user mode
    /// stack, and the program region must start and end on 4 MiB
    /// boundaries.
    pub fn add_program_segment(&mut self, seg: &ProgInfo, loaded: bool) -> (r: Option<Region>)
        requires
            seg.in_mem_at + seg.in_mem_size <= usize::MAX - 0xFFF,
            old(self).program_segments@.len() < usize::MAX,
            loaded ==> old(self).program_region.start % 0x40_0000 == 0,
            loaded ==> old(self).program_region.end % 0x40_0000 == 0,
            loaded ==> (Region { start: seg.in_mem_at, end: (seg.in_mem_at + seg.in_mem_size) as usize }).spec_is_in(
                old(self).program_region,
            ),
            loaded ==> !(Region { start: seg.in_mem_at, end: (seg.in_mem_at + seg.in_mem_size) as usize }).spec_conflicts_with(
                old(self).usermode_stack,
            ),
        ensures
            final(self).program_segments@ == old(self).program_segments@.push(
                Region { start: seg.in_mem_at, end: (seg.in_mem_at + seg.in_mem_size) as usize },
            ),
            *final(self) == (Process { program_segments: final(self).program_segments, ..*old(self) }),
            r == if loaded {
                Some(
                    Region {
                        start: page_down(seg.in_mem_at),
                        end: page_up((seg.in_mem_at + seg.in_mem_size) as usize),
                    },
                )
            } else {
                None
            },
            loaded ==> r->Some_0.start % 4096 == 0 && r->Some_0.end % 4096 == 0 && r->Some_0.start
                <= seg.in_mem_at && seg.in_mem_at + seg.in_mem_size <= r->Some_0.end,
    {
        let mem_reg = Region::from_start_len(seg.in_mem_at, seg.in_mem_size);
        self.program_segments.push(mem_reg);
        if !loaded {
            return None;
        }
        proof {
            lemma_page_down(mem_reg.start);
            lemma_page_up(mem_reg.end);
        }
        Some(Region { start: mem_reg.start & !0xFFF, end: (mem_reg.end + 0xFFF) & !0xFFF })
    }
}

/// The words of a new process's initial user mode stack, from its top up:
/// the number of arguments, the argument pointers, a null pointer, the
/// environment pointers and a null pointer.
pub open spec fn initial_stack_words(argv: Seq<u32>, environ: Seq<u32>) -> Seq<u32> {
    seq![argv.len() as u32] + argv + seq![0u32] + environ + seq![0u32]
}

impl Process {
    /// Sets up the user mode stack, one page: its 4 MiB slot gets the page
    /// table at `table_phys`, and the page the frame on top of the stack of
    /// free pages.  Returns where the initial stack starts and its words,
    /// from there up, which end at the top of the page.
    pub fn set_up_usermode_stack(&mut self, argv: &[u32], environ: &[u32], table_phys: u32, pages: &mut PmmStack) -> (r: (
        usize,
        Vec<u32>,
    ))
        requires
            old(self).vas.wf(),
            old(pages).wf(),
            old(pages).pages@.len() > 0,
            old(pages).pages@.last() & 0xFFFu32 == 0,
            old(self).usermode_stack.start % 4096 == 0,
            old(self).usermode_stack.end == old(self).usermode_stack.start + 4096,
            old(self).usermode_stack.end <= u32::MAX,
            table_phys % 4096 == 0,
            argv@.len() + environ@.len() + 3 <= 1024,
        ensures
            final(self).vas.wf(),
            final(self).vas.translate(old(self).usermode_stack.start as u32) == Some(old(pages).pages@.last()),
            final(pages).wf(),
            final(pages).pages@ == old(pages).pages@.drop_last(),
            r.1@ == initial_stack_words(argv@, environ@),
            r.0 == old(self).usermode_stack.end - 4 * r.1@.len(),
            *final(self) == (Process { vas: final(self).vas, ..*old(self) }),
    {
        let start = self.usermode_stack.start;
        let pde_idx = start / 0x40_0000;
        proof {
            crate::bits::lemma_page_aligned_u32(table_phys);
        }
        self.vas.set_pde_addr(pde_idx, empty_entries(), table_phys);
        let phys = pages.pop_page();
        let virt = start as u32;
        proof {
            crate::bits::lemma_page_aligned_u32(virt);
            crate::vas::lemma_pde_index_is_slot(virt);
        }
        self.vas.map_page(virt, phys);
        let mut words: Vec<u32> = Vec::new();
        words.push(argv.len() as u32);
        let mut i: usize = 0;
        while i < argv.len()
            invariant
                i <= argv@.len(),
                words@ == seq![argv@.len() as u32] + argv@.subrange(0, i as int),
            decreases argv@.len() - i,
        {
            words.push(argv[i]);
            assert(argv@.subrange(0, i + 1) =~= argv@.subrange(0, i as int).push(argv@[i as int]));
            i = i + 1;
        }
        words.push(0);
        let mut j: usize = 0;
        while j < environ.len()
            invariant
                j <= environ@.len(),
                i == argv@.len(),
                words@ == seq![argv@.len() as u32] + argv@.subrange(0, i as int) + seq![0u32] + environ@.subrange(0, j as int),
            decreases environ@.len() - j,
        {
            words.push(environ[j]);
            assert(environ@.subrange(0, j + 1) =~= environ@.subrange(0, j as int).push(environ@[j as int]));
            j = j + 1;
        }
        words.push(0);
        assert(argv@.subrange(0, argv@.len() as int) =~= argv@);
        assert(environ@.subrange(0, environ@.len() as int) =~= environ@);
        assert(words@ =~= initial_stack_words(argv@, environ@));
        let top = self.usermode_stack.end - 4 * words.len();
        (top, words)
    }
}

impl Process {
    /// Prepares the pages `pages` of a loaded program segment: the 4 MiB
    /// slot of its first page gets a page table popped from `tables` if it
    /// has none, and each of its pages that is not mapped yet is mapped to a
    /// frame popped from the stack of free pages, in order; pages already
    /// mapped stay as they are.  Any other slot the segment reaches must
    /// have its page table already.
    pub fn map_segment_pages(&mut self, pages: Region, tables: &mut Vec<u32>, frames: &mut PmmStack)
        requires
            old(self).vas.wf(),
            old(frames).wf(),
            pages.start % 4096 == 0,
            pages.end % 4096 == 0,
            pages.start <= pages.end,
            pages.end <= u32::MAX,
            forall|k: int|
                0 <= k < (pages.end - pages.start) / 4096 ==> pde_index(#[trigger] nth_page(pages.start as u32, k))
                    == pde_index(pages.start as u32) || old(self).vas.has_table(nth_page(pages.start as u32, k)),
            !old(self).vas.has_table(pages.start as u32) ==> old(tables)@.len() > 0 && old(tables)@.last() & 0xFFFu32
                == 0,
            missing_pages(old(self).vas, pages.start as u32, (pages.end - pages.start) / 4096) <= old(frames).pages@.len(),
            forall|i: int| 0 <= i < old(frames).pages@.len() ==> #[trigger] old(frames).pages@[i] & 0xFFFu32 == 0,
        ensures
            final(self).vas.wf(),
            final(frames).wf(),
            final(frames).capacity == old(frames).capacity,
            final(tables)@ == if old(self).vas.has_table(pages.start as u32) {
                old(tables)@
            } else {
                old(tables)@.drop_last()
            },
            !old(self).vas.has_table(pages.start as u32) ==> final(self).vas.pgtbls_phys@[pde_index(
                pages.start as u32,
            )] == old(tables)@.last(),
            final(frames).pages@ == old(frames).pages@.take(
                old(frames).pages@.len() - missing_pages(
                    old(self).vas,
                    pages.start as u32,
                    (pages.end - pages.start) / 4096,
                ),
            ),
            forall|k: int|
                0 <= k < (pages.end - pages.start) / 4096 ==> #[trigger] final(self).vas.translate(
                    nth_page(pages.start as u32, k),
                ) == if old(self).vas.translate(nth_page(pages.start as u32, k)) is Some {
                    old(self).vas.translate(nth_page(pages.start as u32, k))
                } else {
                    Some(
                        old(frames).pages@[old(frames).pages@.len() - 1 - missing_pages(
                            old(self).vas,
                            pages.start as u32,
                            k,
                        )],
                    )
                },
            *final(self) == (Process { vas: final(self).vas, ..*old(self) }),
    {
        let start = pages.start as u32;
        let end = pages.end as u32;
        let ghost n = (end - start) / 4096;
        let ghost v0 = self.vas;
        proof {
            lemma_page_indices(start);
        }
        if !self.vas.pgtbl_exists(start) {
            let t = tables.pop().unwrap();
            let d = (start >> 22u32) as usize;
            let e = empty_entries();
            self.vas.set_pde_addr(d, e, t);
            proof {
                assert forall|i: int| 0 <= i < 1024 implies (#[trigger] self.vas.pgtbls@[d as int]@[i]).0 == 0 by {
                    assert(self.vas.pgtbls@[d as int]@[i] == e@[i]);
                }
                assert forall|i: int| 0 <= i < 1024 && i != d implies #[trigger] self.vas.pgtbls@[i] == v0.pgtbls@[i] by {}
                lemma_new_table_keeps_translations(v0, self.vas, d as int);
                assert forall|k: int| 0 <= k < n implies #[trigger] self.vas.has_table(nth_page(start, k)) by {
                    lemma_page_indices(nth_page(start, k));
                    if pde_index(nth_page(start, k)) != d {
                        assert(self.vas.pgtbls@[pde_index(nth_page(start, k))] == v0.pgtbls@[pde_index(nth_page(start, k))]);
                    }
                }
            }
        } else {
            proof {
                assert forall|k: int| 0 <= k < n implies #[trigger] self.vas.has_table(nth_page(start, k)) by {
                    lemma_page_indices(nth_page(start, k));
                }
            }
        }
        let ghost v1 = self.vas;
        proof {
            assert forall|w: u32| #[trigger] v1.translate(w) == v0.translate(w) by {}
            lemma_missing_pages_alike(v1, v0, start, n);
        }
        self.vas.map_missing_pages(start, end, frames);
        proof {
            assert forall|k: int| 0 <= k < n implies missing_pages(v1, start, k) == missing_pages(v0, start, k) by {
                lemma_missing_pages_alike(v1, v0, start, k);
            }
        }
    }
}

impl Process {
    /// Sets up loadable program segment `seg` short of copying its bytes:
    /// records it, and maps the pages it spans, from the page holding its
    /// first byte to the page boundary at or after its end (which are
    /// returned): the 4 MiB slot of the first page gets a page table popped
    /// from `tables` if it has none, and each page not mapped yet gets a
    /// frame popped from the stack of free pages.  The segment must lie in
    /// the program region apart from the user mode stack, and any other
    /// slot it reaches must have its page table already.
    pub fn load_segment(&mut self, seg: &ProgInfo, tables: &mut Vec<u32>, frames: &mut PmmStack) -> (pages: Region)
        requires
            old(self).vas.wf(),
            old(frames).wf(),
            forall|i: int| 0 <= i < old(frames).pages@.len() ==> #[trigger] old(frames).pages@[i] & 0xFFFu32 == 0,
            seg.in_mem_at + seg.in_mem_size <= usize::MAX - 0xFFF,
            old(self).program_segments@.len() < usize::MAX,
            old(self).program_region.start % 0x40_0000 == 0,
            old(self).program_region.end % 0x40_0000 == 0,
            (Region { start: seg.in_mem_at, end: (seg.in_mem_at + seg.in_mem_size) as usize }).spec_is_in(
                old(self).program_region,
            ),
            !(Region { start: seg.in_mem_at, end: (seg.in_mem_at + seg.in_mem_size) as usize }).spec_conflicts_with(
                old(self).usermode_stack,
            ),
            ({
                let start = page_down(seg.in_mem_at);
                let end = page_up((seg.in_mem_at + seg.in_mem_size) as usize);
                &&& end <= u32::MAX
                &&& forall|k: int|
                    0 <= k < (end - start) / 4096 ==> pde_index(#[trigger] nth_page(start as u32, k)) == pde_index(
                        start as u32,
                    ) || old(self).vas.has_table(nth_page(start as u32, k))
                &&& !old(self).vas.has_table(start as u32) ==> old(tables)@.len() > 0 && old(tables)@.last() & 0xFFFu32
                    == 0
                &&& missing_pages(old(self).vas, start as u32, (end - start) / 4096) <= old(frames).pages@.len()
            }),
        ensures
            pages == (Region {
                start: page_down(seg.in_mem_at),
                end: page_up((seg.in_mem_at + seg.in_mem_size) as usize),
            }),
            pages.start <= seg.in_mem_at,
            seg.in_mem_at + seg.in_mem_size <= pages.end,
            final(self).program_segments@ == old(self).program_segments@.push(
                Region { start: seg.in_mem_at, end: (seg.in_mem_at + seg.in_mem_size) as usize },
            ),
            *final(self) == (Process {
                vas: final(self).vas,
                program_segments: final(self).program_segments,
                ..*old(self)
            }),
            final(self).vas.wf(),
            final(frames).wf(),
            final(frames).capacity == old(frames).capacity,
            final(tables)@ == if old(self).vas.has_table(pages.start as u32) {
                old(tables)@
            } else {
                old(tables)@.drop_last()
            },
            !old(self).vas.has_table(pages.start as u32) ==> final(self).vas.pgtbls_phys@[pde_index(
                pages.start as u32,
            )] == old(tables)@.last(),
            final(frames).pages@ == old(frames).pages@.take(
                old(frames).pages@.len() - missing_pages(
                    old(self).vas,
                    pages.start as u32,
                    (pages.end - pages.start) / 4096,
                ),
            ),
            forall|k: int|
                0 <= k < (pages.end - pages.start) / 4096 ==> #[trigger] final(self).vas.translate(
                    nth_page(pages.start as u32, k),
                ) == if old(self).vas.translate(nth_page(pages.start as u32, k)) is Some {
                    old(self).vas.translate(nth_page(pages.start as u32, k))
                } else {
                    Some(
                        old(frames).pages@[old(frames).pages@.len() - 1 - missing_pages(
                            old(self).vas,
                            pages.start as u32,
                            k,
                        )],
                    )
                },
    {
        let pages = match self.add_program_segment(seg, true) {
            Some(p) => p,
            None => Region { start: 0, end: 0 },
        };
        self.map_segment_pages(pages, tables, frames);
        pages
    }
}

} // verus!
