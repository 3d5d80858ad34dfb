use vstd::prelude::*;

use crate::bits::{
    bit32, lemma_flag_keeps_addr, lemma_page_aligned_u32, lemma_set_addr_bits, lemma_with_bit32,
    with_bit32,
};
use crate::pmm_stack::PmmStack;

verus! {

/// Flags of a page directory entry.
#[derive(Clone, Copy, Debug, PartialEq, Eq, Structural)]
pub enum PdeFlags {
    /// Not set: not present.
    Present,
    /// Not set: read-only.
    ReadWrite,
    /// Not set: must be DPL 0 to access.
    AnyDpl,
    /// Not set: write-back caching.
    WriteThroughCaching,
    /// Not set: enable caching.
    NoCaching,
    /// Not set: not accessed.
    Accessed,
    /// Not set: page size is 4 KiB.
    PageSizeIs4Mib,
}

impl PdeFlags {
    pub open spec fn spec_bit(self) -> u32 {
        match self {
            PdeFlags::Present => 0,
            PdeFlags::ReadWrite => 1,
            PdeFlags::AnyDpl => 2,
            PdeFlags::WriteThroughCaching => 3,
            PdeFlags::NoCaching => 4,
            PdeFlags::Accessed => 5,
            PdeFlags::PageSizeIs4Mib => 7,
        }
    }

    /// The index of the flag's bit.
    pub fn bit(self) -> (r: u32)
        ensures
            r == self.spec_bit(),
            r < 12,
    {
        match self {
            PdeFlags::Present => 0,
            PdeFlags::ReadWrite => 1,
            PdeFlags::AnyDpl => 2,
            PdeFlags::WriteThroughCaching => 3,
            PdeFlags::NoCaching => 4,
            PdeFlags::Accessed => 5,
            PdeFlags::PageSizeIs4Mib => 7,
        }
    }
}

/// Flags of a page table entry, the last two for this kernel's own use.
#[derive(Clone, Copy, Debug, PartialEq, Eq, Structural)]
pub enum PteFlags {
    /// Not set: not present.
    Present,
    /// Not set: read-only.
    ReadWrite,
    /// Not set: must be DPL 0 to access.
    AnyDpl,
    /// Not set: write-back caching.
    WriteThroughCaching,
    /// Not set: enable caching.
    NoCaching,
    /// Not set: not accessed.
    Accessed,
    /// Not set: not written to.
    Dirty,
    /// Not set: invalidated on a CR3 reload.
    Global,
    /// The page is a guard page.
    GuardPage,
    /// The page was present before it became a guard page.
    WasPresent,
}

impl PteFlags {
    pub open spec fn spec_bit(self) -> u32 {
        match self {
            PteFlags::Present => 0,
            PteFlags::ReadWrite => 1,
            PteFlags::AnyDpl => 2,
            PteFlags::WriteThroughCaching => 3,
            PteFlags::NoCaching => 4,
            PteFlags::Accessed => 5,
            PteFlags::Dirty => 6,
            PteFlags::Global => 8,
            PteFlags::GuardPage => 9,
            PteFlags::WasPresent => 10,
        }
    }

    /// The index of the flag's bit.
    pub fn bit(self) -> (r: u32)
        ensures
            r == self.spec_bit(),
            r < 12,
    {
        match self {
            PteFlags::Present => 0,
            PteFlags::ReadWrite => 1,
            PteFlags::AnyDpl => 2,
            PteFlags::WriteThroughCaching => 3,
            PteFlags::NoCaching => 4,
            PteFlags::Accessed => 5,
            PteFlags::Dirty => 6,
            PteFlags::Global => 8,
            PteFlags::GuardPage => 9,
            PteFlags::WasPresent => 10,
        }
    }
}

/// A page directory or page table entry: a page-aligned address and flags
/// in the low 12 bits.
#[derive(Clone, Copy, Debug)]
pub struct Entry(pub u32);

pub const PRESENT_BIT: u32 = 0;
pub const READ_WRITE_BIT: u32 = 1;
pub const ANY_DPL_BIT: u32 = 2;
pub const GUARD_PAGE_BIT: u32 = 9;
pub const WAS_PRESENT_BIT: u32 = 10;

impl Entry {
    pub open spec fn spec_addr(self) -> u32 {
        self.0 & !0xFFFu32
    }

    pub open spec fn spec_flags(self) -> u32 {
        self.0 & 0xFFFu32
    }

    pub open spec fn has(self, bit: u32) -> bool {
        bit32(self.0, bit)
    }

    pub fn new(addr: u32) -> (r: Entry)
        ensures
            r.0 == addr,
    {
        Entry(addr)
    }

    pub fn missing() -> (r: Entry)
        ensures
            r.0 == 0,
    {
        Entry(0)
    }

    pub fn addr(&self) -> (r: u32)
        ensures
            r == self.spec_addr(),
    {
        self.0 & !0xFFFu32
    }

    pub fn flags(&self) -> (r: u32)
        ensures
            r == self.spec_flags(),
    {
        self.0 & 0xFFFu32
    }

    /// Whether flag bit `bit` is set.
    pub fn has_flag(&self, bit: u32) -> (r: bool)
        requires
            bit < 12,
        ensures
            r == self.has(bit),
    {
        (self.0 >> bit) & 1 != 0
    }

    /// Replaces the address, which must be page-aligned, keeping the flags.
    pub fn set_addr(&mut self, addr: u32)
        requires
            addr & 0xFFFu32 == 0,
        ensures
            final(self).0 == addr | old(self).spec_flags(),
            final(self).spec_addr() == addr,
            final(self).spec_flags() == old(self).spec_flags(),
            forall|k: u32| k < 12 ==> #[trigger] final(self).has(k) == old(self).has(k),
    {
        let v = self.0;
        proof {
            lemma_set_addr_bits(v, addr, 0);
            assert forall|k: u32| k < 12 implies #[trigger] bit32(addr | (v & 0xFFFu32), k)
                == bit32(v, k) by {
                lemma_set_addr_bits(v, addr, k);
            }
        }
        self.0 = addr | (v & 0xFFFu32);
    }

    /// Sets flag bit `bit`, keeping the address and the other flags.
    pub fn set_flag(&mut self, bit: u32)
        requires
            bit < 12,
        ensures
            final(self).0 == with_bit32(old(self).0, bit, true),
            final(self).spec_addr() == old(self).spec_addr(),
            final(self).has(bit),
            forall|k: u32| k < 32 && k != bit ==> #[trigger] final(self).has(k) == old(self).has(k),
    {
        let v = self.0;
        proof {
            lemma_flag_keeps_addr(v, bit, true);
            lemma_with_bit32(v, bit, bit, true);
            assert forall|k: u32| k < 32 && k != bit implies #[trigger] bit32(
                with_bit32(v, bit, true),
                k,
            ) == bit32(v, k) by {
                lemma_with_bit32(v, bit, k, true);
            }
        }
        self.0 = v | (1u32 << bit);
    }

    /// Clears flag bit `bit`, keeping the address and the other flags.
    pub fn unset_flag(&mut self, bit: u32)
        requires
            bit < 12,
        ensures
            final(self).0 == with_bit32(old(self).0, bit, false),
            final(self).spec_addr() == old(self).spec_addr(),
            !final(self).has(bit),
            forall|k: u32| k < 32 && k != bit ==> #[trigger] final(self).has(k) == old(self).has(k),
    {
        let v = self.0;
        proof {
            lemma_flag_keeps_addr(v, bit, false);
            lemma_with_bit32(v, bit, bit, false);
            assert forall|k: u32| k < 32 && k != bit implies #[trigger] bit32(
                with_bit32(v, bit, false),
                k,
            ) == bit32(v, k) by {
                lemma_with_bit32(v, bit, k, false);
            }
        }
        self.0 = v & !(1u32 << bit);
    }

    pub fn set_pde_flag(&mut self, flag: PdeFlags)
        ensures
            final(self).0 == with_bit32(old(self).0, flag.spec_bit(), true),
    {
        let b = flag.bit();
        self.set_flag(b);
    }

    pub fn set_pte_flag(&mut self, flag: PteFlags)
        ensures
            final(self).0 == with_bit32(old(self).0, flag.spec_bit(), true),
    {
        let b = flag.bit();
        self.set_flag(b);
    }

    pub fn unset_pte_flag(&mut self, flag: PteFlags)
        ensures
            final(self).0 == with_bit32(old(self).0, flag.spec_bit(), false),
    {
        let b = flag.bit();
        self.unset_flag(b);
    }
}

/// Number of entries in a page directory or a page table.
pub const NUM_ENTRIES: usize = 1024;

/// A page directory: 1024 entries.
pub struct Directory(pub Vec<Entry>);

/// A page table: 1024 entries.
pub struct Table(pub Vec<Entry>);

impl Directory {
    /// A directory of empty entries.
    pub fn new() -> (r: Directory)
        ensures
            r.0@.len() == NUM_ENTRIES,
            forall|i: int| 0 <= i < NUM_ENTRIES ==> (#[trigger] r.0@[i]).0 == 0,
    {
        Directory(empty_entries())
    }
}

impl Table {
    /// A table of empty entries.
    pub fn new() -> (r: Table)
        ensures
            r.0@.len() == NUM_ENTRIES,
            forall|i: int| 0 <= i < NUM_ENTRIES ==> (#[trigger] r.0@[i]).0 == 0,
    {
        Table(empty_entries())
    }
}

/// 1024 empty entries.
pub fn empty_entries() -> (r: Vec<Entry>)
    ensures
        r@.len() == NUM_ENTRIES,
        forall|i: int| 0 <= i < NUM_ENTRIES ==> (#[trigger] r@[i]).0 == 0,
{
    let mut v: Vec<Entry> = Vec::new();
    let mut i: usize = 0;
    while i < NUM_ENTRIES
        invariant
            i <= NUM_ENTRIES,
            v@.len() == i,
            forall|k: int| 0 <= k < i ==> (#[trigger] v@[k]).0 == 0,
        decreases NUM_ENTRIES - i,
    {
        v.push(Entry::missing());
        i = i + 1;
    }
    v
}

/// Index of the page directory entry that covers `virt`.
pub open spec fn pde_index(virt: u32) -> int {
    (virt >> 22u32) as int
}

/// Index of the page table entry that covers `virt`.
pub open spec fn pte_index(virt: u32) -> int {
    ((virt >> 12u32) & 0x3FFu32) as int
}

} // verus!

verus! {

/// Both page indices of an address are below 1024, and joining them back
/// gives the address without its offset within the page.
pub proof fn lemma_page_indices(v: u32)
    ensures
        v >> 22u32 < 1024,
        (v >> 12u32) & 0x3FFu32 < 1024,
        ((v >> 22u32) << 22u32) | (((v >> 12u32) & 0x3FFu32) << 12u32) == v & !0xFFFu32,
{
    assert(v >> 22u32 < 1024 && (v >> 12u32) & 0x3FFu32 < 1024 && ((v >> 22u32) << 22u32) | (((v
        >> 12u32) & 0x3FFu32) << 12u32) == v & !0xFFFu32) by (bit_vector);
}

/// The page directory index of an address is the number of its 4 MiB slot.
pub proof fn lemma_pde_index_is_slot(v: u32)
    ensures
        v >> 22u32 == v / 0x40_0000u32,
{
    assert(v >> 22u32 == v / 0x40_0000u32) by (bit_vector);
}

/// The address built from two page indices is page-aligned and gives the
/// indices back.
pub proof fn lemma_join_indices(i: u32, j: u32)
    requires
        i < 1024,
        j < 1024,
    ensures
        ((i << 22u32) | (j << 12u32)) & 0xFFFu32 == 0,
        ((i << 22u32) | (j << 12u32)) >> 22u32 == i,
        (((i << 22u32) | (j << 12u32)) >> 12u32) & 0x3FFu32 == j,
{
    assert(((i << 22u32) | (j << 12u32)) & 0xFFFu32 == 0 && ((i << 22u32) | (j << 12u32)) >> 22u32
        == i && (((i << 22u32) | (j << 12u32)) >> 12u32) & 0x3FFu32 == j) by (bit_vector)
        requires
            i < 1024,
            j < 1024,
    ;
}

/// The entry of a guard page placed over `e`.
pub open spec fn guarded(e: u32) -> u32 {
    let e1 = if bit32(e, PRESENT_BIT) {
        with_bit32(with_bit32(e, PRESENT_BIT, false), WAS_PRESENT_BIT, true)
    } else {
        e
    };
    with_bit32(e1, GUARD_PAGE_BIT, true)
}

/// The entry `e` with its guard page removed.
pub open spec fn unguarded(e: u32) -> u32 {
    let e1 = if bit32(e, WAS_PRESENT_BIT) {
        with_bit32(with_bit32(e, WAS_PRESENT_BIT, false), PRESENT_BIT, true)
    } else {
        e
    };
    with_bit32(e1, GUARD_PAGE_BIT, false)
}

/// Removing a guard page from an entry that was not guarded before gives
/// the entry back.
pub proof fn lemma_guard_roundtrip(e: u32)
    requires
        !bit32(e, GUARD_PAGE_BIT),
        !bit32(e, WAS_PRESENT_BIT),
    ensures
        unguarded(guarded(e)) == e,
{
    let p = bit32(e, PRESENT_BIT);
    let g = guarded(e);
    lemma_with_bit32(e, PRESENT_BIT, WAS_PRESENT_BIT, false);
    lemma_with_bit32(with_bit32(e, PRESENT_BIT, false), WAS_PRESENT_BIT, WAS_PRESENT_BIT, true);
    let e1 = if p {
        with_bit32(with_bit32(e, PRESENT_BIT, false), WAS_PRESENT_BIT, true)
    } else {
        e
    };
    lemma_with_bit32(e1, GUARD_PAGE_BIT, WAS_PRESENT_BIT, true);
    assert(bit32(g, WAS_PRESENT_BIT) == p);
    assert(((((e >> 0u32) & 1u32 != 0u32) && ((e >> 9u32) & 1u32 == 0u32) && ((e >> 10u32) & 1u32
        == 0u32)) ==> ((((((e & !(1u32 << 0u32)) | (1u32 << 10u32)) | (1u32 << 9u32)) & !(1u32
        << 10u32)) | (1u32 << 0u32)) & !(1u32 << 9u32)) == e) && ((((e >> 0u32) & 1u32 == 0u32)
        && ((e >> 9u32) & 1u32 == 0u32)) ==> (((e | (1u32 << 9u32)) & !(1u32 << 9u32)) == e)))
        by (bit_vector);
}

/// A virtual address space: a page directory and the page tables it points
/// to.  An empty table vector stands for a missing page table.
pub struct VirtAddrSpace {
    pub pgdir_phys: u32,
    pub pgdir: Vec<Entry>,
    pub pgtbls: Vec<Vec<Entry>>,
    pub pgtbls_phys: Vec<u32>,
    pub usermode: bool,
}

impl VirtAddrSpace {
    /// The directory and the tables agree: a directory entry is present
    /// exactly where there is a table, and then it points at the table.
    pub open spec fn wf(&self) -> bool {
        &&& self.pgdir@.len() == NUM_ENTRIES
        &&& self.pgtbls@.len() == NUM_ENTRIES
        &&& self.pgtbls_phys@.len() == NUM_ENTRIES
        &&& forall|i: int|
            0 <= i < NUM_ENTRIES ==> {
                &&& (#[trigger] self.pgtbls@[i])@.len() == 0 || self.pgtbls@[i]@.len()
                    == NUM_ENTRIES
                &&& self.pgdir@[i].has(PRESENT_BIT) <==> self.pgtbls@[i]@.len() == NUM_ENTRIES
                &&& self.pgdir@[i].has(PRESENT_BIT) ==> self.pgdir@[i].spec_addr()
                    == self.pgtbls_phys@[i]
            }
    }

    /// Whether the page table covering `virt` exists.
    pub open spec fn has_table(&self, virt: u32) -> bool {
        self.pgtbls@[pde_index(virt)]@.len() == NUM_ENTRIES
    }

    /// The page table entry covering `virt`.
    pub open spec fn pte(&self, virt: u32) -> Entry {
        self.pgtbls@[pde_index(virt)]@[pte_index(virt)]
    }

    /// The physical page that `virt` is mapped to, if its entry is present.
    pub open spec fn translate(&self, virt: u32) -> Option<u32> {
        if self.has_table(virt) && self.pte(virt).has(PRESENT_BIT) {
            Some(self.pte(virt).spec_addr())
        } else {
            None
        }
    }

    /// Every entry except the one at `(d, t)` is the same in both spaces.
    pub open spec fn same_except(&self, other: &VirtAddrSpace, d: int, t: int) -> bool {
        &&& self.pgdir@ == other.pgdir@
        &&& self.pgtbls_phys@ == other.pgtbls_phys@
        &&& self.usermode == other.usermode
        &&& self.pgdir_phys == other.pgdir_phys
        &&& forall|i: int| 0 <= i < NUM_ENTRIES ==> (#[trigger] self.pgtbls@[i])@.len()
            == other.pgtbls@[i]@.len()
        &&& forall|i: int, j: int|
            0 <= i < NUM_ENTRIES && 0 <= j < self.pgtbls@[i]@.len() && (i != d || j != t)
                ==> #[trigger] self.pgtbls@[i]@[j] == other.pgtbls@[i]@[j]
    }

    /// An address space without any page table.
    pub fn empty(pgdir_phys: u32, usermode: bool) -> (r: VirtAddrSpace)
        ensures
            r.wf(),
            r.pgdir_phys == pgdir_phys,
            r.usermode == usermode,
            forall|v: u32| #[trigger] r.translate(v) is None,
            forall|i: int| 0 <= i < NUM_ENTRIES ==> (#[trigger] r.pgtbls@[i])@.len() == 0,
    {
        let pgdir = empty_entries();
        let mut pgtbls: Vec<Vec<Entry>> = Vec::new();
        let mut pgtbls_phys: Vec<u32> = Vec::new();
        let mut i: usize = 0;
        while i < NUM_ENTRIES
            invariant
                i <= NUM_ENTRIES,
                pgtbls@.len() == i,
                pgtbls_phys@.len() == i,
                forall|k: int| 0 <= k < i ==> (#[trigger] pgtbls@[k])@.len() == 0,
            decreases NUM_ENTRIES - i,
        {
            pgtbls.push(Vec::new());
            pgtbls_phys.push(0);
            i = i + 1;
        }
        let r = VirtAddrSpace { pgdir_phys, pgdir, pgtbls, pgtbls_phys, usermode };
        proof {
            assert forall|i: int| 0 <= i < NUM_ENTRIES implies !r.pgdir@[i].has(PRESENT_BIT) by {
                assert(r.pgdir@[i].0 == 0);
                lemma_addr_bits_aligned(0);
            }
            assert forall|v: u32| #[trigger] r.translate(v) is None by {
                lemma_page_indices(v);
            }
        }
        r
    }

    /// Maps page `virt` to frame `phys`, read-write, and user-accessible in a
    /// user address space.  The page table must exist.
    pub fn map_page(&mut self, virt: u32, phys: u32)
        requires
            old(self).wf(),
            virt & 0xFFFu32 == 0,
            phys & 0xFFFu32 == 0,
            old(self).has_table(virt),
        ensures
            final(self).wf(),
            final(self).translate(virt) == Some(phys),
            final(self).pte(virt).has(READ_WRITE_BIT),
            old(self).usermode ==> final(self).pte(virt).has(ANY_DPL_BIT),
            final(self).same_except(&*old(self), pde_index(virt), pte_index(virt)),
    {
        proof {
            lemma_page_indices(virt);
        }
        let d = (virt >> 22u32) as usize;
        let t = ((virt >> 12u32) & 0x3FFu32) as usize;
        let mut e = self.pgtbls[d][t];
        e.set_addr(phys);
        e.set_flag(PRESENT_BIT);
        e.set_flag(READ_WRITE_BIT);
        if self.usermode {
            e.set_flag(ANY_DPL_BIT);
        }
        self.pgtbls[d].set(t, e);
    }

    /// The physical page that `virt` is mapped to.
    pub fn virt_to_phys(&self, virt: u32) -> (r: Option<u32>)
        requires
            self.wf(),
        ensures
            r == self.translate(virt),
    {
        proof {
            lemma_page_indices(virt);
        }
        let d = (virt >> 22u32) as usize;
        if self.pgtbls[d].len() == NUM_ENTRIES {
            let t = ((virt >> 12u32) & 0x3FFu32) as usize;
            let e = self.pgtbls[d][t];
            if e.has_flag(PRESENT_BIT) {
                Some(e.addr())
            } else {
                None
            }
        } else {
            None
        }
    }

    /// Whether the page table covering `virt` exists.
    pub fn pgtbl_exists(&self, virt: u32) -> (r: bool)
        requires
            self.wf(),
        ensures
            r == self.has_table(virt),
    {
        proof {
            lemma_page_indices(virt);
        }
        let d = (virt >> 22u32) as usize;
        self.pgtbls[d].len() == NUM_ENTRIES
    }

    /// The page table entry covering `virt`; its page table must exist.
    pub fn pgtbl_entry(&self, virt: u32) -> (r: Entry)
        requires
            self.wf(),
            self.has_table(virt),
        ensures
            r == self.pte(virt),
    {
        proof {
            lemma_page_indices(virt);
        }
        let d = (virt >> 22u32) as usize;
        let t = ((virt >> 12u32) & 0x3FFu32) as usize;
        self.pgtbls[d][t]
    }

    /// Turns page `at` into a guard page, remembering whether it was present.
    pub fn place_guard_page(&mut self, at: u32)
        requires
            old(self).wf(),
            at & 0xFFFu32 == 0,
            old(self).has_table(at),
        ensures
            final(self).wf(),
            final(self).pte(at).0 == guarded(old(self).pte(at).0),
            final(self).same_except(&*old(self), pde_index(at), pte_index(at)),
    {
        proof {
            lemma_page_indices(at);
        }
        let d = (at >> 22u32) as usize;
        let t = ((at >> 12u32) & 0x3FFu32) as usize;
        let mut e = self.pgtbls[d][t];
        if e.has_flag(PRESENT_BIT) {
            e.unset_flag(PRESENT_BIT);
            e.set_flag(WAS_PRESENT_BIT);
        }
        e.set_flag(GUARD_PAGE_BIT);
        self.pgtbls[d].set(t, e);
    }

    /// Turns guard page `from` back into an ordinary page, present again if it
    /// was present before.
    pub fn remove_guard_page(&mut self, from: u32)
        requires
            old(self).wf(),
            from & 0xFFFu32 == 0,
            old(self).has_table(from),
        ensures
            final(self).wf(),
            final(self).pte(from).0 == unguarded(old(self).pte(from).0),
            final(self).same_except(&*old(self), pde_index(from), pte_index(from)),
    {
        proof {
            lemma_page_indices(from);
        }
        let d = (from >> 22u32) as usize;
        let t = ((from >> 12u32) & 0x3FFu32) as usize;
        let mut e = self.pgtbls[d][t];
        if e.has_flag(WAS_PRESENT_BIT) {
            e.unset_flag(WAS_PRESENT_BIT);
            e.set_flag(PRESENT_BIT);
        }
        e.unset_flag(GUARD_PAGE_BIT);
        self.pgtbls[d].set(t, e);
    }

    /// Installs `table`, at physical address `pgtbl_phys`, as the page table
    /// of directory entry `pde_idx`, and returns that address.
    pub fn set_pde_addr(&mut self, pde_idx: usize, table: Vec<Entry>, pgtbl_phys: u32) -> (r: u32)
        requires
            old(self).wf(),
            pde_idx < NUM_ENTRIES,
            table@.len() == NUM_ENTRIES,
            pgtbl_phys & 0xFFFu32 == 0,
        ensures
            final(self).wf(),
            r == pgtbl_phys,
            final(self).pgtbls@[pde_idx as int]@ == table@,
            final(self).pgtbls_phys@[pde_idx as int] == pgtbl_phys,
            final(self).pgdir@[pde_idx as int].spec_addr() == pgtbl_phys,
            final(self).pgdir@[pde_idx as int].has(READ_WRITE_BIT),
            old(self).usermode ==> final(self).pgdir@[pde_idx as int].has(ANY_DPL_BIT),
            final(self).usermode == old(self).usermode,
            final(self).pgdir_phys == old(self).pgdir_phys,
            forall|i: int|
                0 <= i < NUM_ENTRIES && i != pde_idx ==> {
                    &&& #[trigger] final(self).pgtbls@[i] == old(self).pgtbls@[i]
                    &&& final(self).pgdir@[i] == old(self).pgdir@[i]
                    &&& final(self).pgtbls_phys@[i] == old(self).pgtbls_phys@[i]
                },
    {
        self.pgtbls.set(pde_idx, table);
        self.pgtbls_phys.set(pde_idx, pgtbl_phys);
        let mut e = self.pgdir[pde_idx];
        e.set_addr(pgtbl_phys);
        e.set_flag(PRESENT_BIT);
        e.set_flag(READ_WRITE_BIT);
        if self.usermode {
            e.set_flag(ANY_DPL_BIT);
        }
        self.pgdir.set(pde_idx, e);
        pgtbl_phys
    }
}

/// A mapping installed in an address space is read back, and no other page
/// of the space changes.
pub proof fn lemma_map_then_translate(before: VirtAddrSpace, after: VirtAddrSpace, virt: u32, phys: u32, w: u32)
    requires
        after.wf(),
        before.wf(),
        after.translate(virt) == Some(phys),
        after.same_except(&before, pde_index(virt), pte_index(virt)),
        pde_index(w) != pde_index(virt) || pte_index(w) != pte_index(virt),
    ensures
        after.translate(virt) == Some(phys),
        after.translate(w) == before.translate(w),
{
    lemma_page_indices(w);
    lemma_page_indices(virt);
}


impl VirtAddrSpace {
    /// Identity-maps the first `pgtbls_phys.len()` page tables' worth of
    /// memory (4 MiB each), read-write and user-accessible, using page tables
    /// at the given physical addresses.
    pub fn new_identity_mapped(pgdir_phys: u32, pgtbls_phys: &[u32]) -> (r: VirtAddrSpace)
        requires
            pgtbls_phys@.len() <= NUM_ENTRIES,
            forall|i: int| 0 <= i < pgtbls_phys@.len() ==> #[trigger] pgtbls_phys@[i] & 0xFFFu32
                == 0,
        ensures
            r.wf(),
            r.pgdir_phys == pgdir_phys,
            !r.usermode,
            forall|v: u32|
                pde_index(v) < pgtbls_phys@.len() ==> #[trigger] r.translate(v) == Some(
                    v & !0xFFFu32,
                ),
            forall|v: u32| pde_index(v) >= pgtbls_phys@.len() ==> #[trigger] r.translate(v) is None,
            forall|v: u32|
                pde_index(v) < pgtbls_phys@.len() ==> (#[trigger] r.pte(v)).has(READ_WRITE_BIT)
                    && r.pte(v).has(ANY_DPL_BIT),
    {
        let mut vas = VirtAddrSpace::empty(pgdir_phys, false);
        let n = pgtbls_phys.len();
        let mut i: usize = 0;
        while i < n
            invariant
                i <= n,
                n == pgtbls_phys@.len(),
                n <= NUM_ENTRIES,
                vas.wf(),
                vas.pgdir_phys == pgdir_phys,
                !vas.usermode,
                forall|k: int| 0 <= k < n ==> #[trigger] pgtbls_phys@[k] & 0xFFFu32 == 0,
                forall|k: int| i <= k < NUM_ENTRIES ==> (#[trigger] vas.pgtbls@[k])@.len() == 0,
                identity_filled(&vas, i as int),
            decreases n - i,
        {
            let table = identity_table(i as u32);
            let ghost tv = table@;
            let ghost old_pgdir = vas.pgdir@;
            let ghost old_tbls = vas.pgtbls@;
            let ghost old_vas = vas;
            let mut e = Entry::missing();
            e.set_addr(pgtbls_phys[i]);
            e.set_flag(PRESENT_BIT);
            e.set_flag(READ_WRITE_BIT);
            e.set_flag(ANY_DPL_BIT);
            vas.pgtbls.set(i, table);
            vas.pgtbls_phys.set(i, pgtbls_phys[i]);
            vas.pgdir.set(i, e);
            proof {
                assert(vas.pgtbls@[i as int]@ == tv);
                assert(vas.pgdir@[i as int].has(PRESENT_BIT));
                assert(vas.pgdir@[i as int].spec_addr() == vas.pgtbls_phys@[i as int]);
                assert forall|k: int| 0 <= k < NUM_ENTRIES implies {
                    &&& (#[trigger] vas.pgtbls@[k])@.len() == 0 || vas.pgtbls@[k]@.len() == NUM_ENTRIES
                    &&& vas.pgdir@[k].has(PRESENT_BIT) <==> vas.pgtbls@[k]@.len() == NUM_ENTRIES
                    &&& vas.pgdir@[k].has(PRESENT_BIT) ==> vas.pgdir@[k].spec_addr()
                        == vas.pgtbls_phys@[k]
                } by {
                    if k != i as int {
                        assert(vas.pgdir@[k] == old_pgdir[k]);
                    }
                }
            }
            i = i + 1;
            proof {
                assert forall|k: int, j: int| 0 <= k < i && 0 <= j < NUM_ENTRIES implies #[trigger] identity_entry(&vas, k, j) by {
                    if k == i as int - 1 {
                        assert(vas.pgtbls@[k]@[j] == tv[j]);
                        assert(tv.len() == NUM_ENTRIES);
                        assert(tv[j].spec_addr() == (((i - 1) as u32) << 22u32) | ((j as u32) << 12u32));
                        assert(tv[j].has(ANY_DPL_BIT));
                    } else {
                        assert(vas.pgtbls@[k] == old_tbls[k]);
                        assert(identity_entry(&old_vas, k, j));
                    }
                }
                assert(identity_filled(&vas, i as int));
            }
        }
        proof {
            assert(identity_filled(&vas, n as int));
            assert forall|v: u32|
                pde_index(v) < pgtbls_phys@.len() implies #[trigger] vas.translate(v) == Some(
                v & !0xFFFu32,
            ) by {
                lemma_page_indices(v);
                let k = pde_index(v);
                let j = pte_index(v);
                assert(identity_entry(&vas, k, j));
                assert(vas.pgtbls@[k]@[j].spec_addr() == ((k as u32) << 22u32) | ((j as u32)
                    << 12u32));
            }
            assert forall|v: u32| pde_index(v) >= pgtbls_phys@.len() implies #[trigger] vas.translate(
                v,
            ) is None by {
                lemma_page_indices(v);
            }
            assert forall|v: u32|
                pde_index(v) < pgtbls_phys@.len() implies (#[trigger] vas.pte(v)).has(
                READ_WRITE_BIT,
            ) && vas.pte(v).has(ANY_DPL_BIT) by {
                lemma_page_indices(v);
                let k = pde_index(v);
                let j = pte_index(v);
                assert(identity_entry(&vas, k, j));
            }
        }
        vas
    }

    /// A user address space that maps every page that this one maps, to the
    /// same frames but read-write and user-accessible, using fresh page tables
    /// at the given physical addresses.
    pub fn copy_for_usermode(&self, pgdir_phys: u32, pgtbls_phys: &[u32]) -> (r: VirtAddrSpace)
        requires
            self.wf(),
            pgtbls_phys@.len() == NUM_ENTRIES,
            forall|i: int| 0 <= i < NUM_ENTRIES ==> #[trigger] pgtbls_phys@[i] & 0xFFFu32 == 0,
        ensures
            r.wf(),
            r.usermode,
            r.pgdir_phys == pgdir_phys,
            forall|v: u32| #[trigger] r.translate(v) == self.translate(v),
            forall|v: u32|
                (#[trigger] r.translate(v)) is Some ==> r.pte(v).has(READ_WRITE_BIT) && r.pte(
                    v,
                ).has(ANY_DPL_BIT),
    {
        let mut vas = VirtAddrSpace::empty(pgdir_phys, true);
        let mut i: usize = 0;
        while i < NUM_ENTRIES
            invariant
                i <= NUM_ENTRIES,
                self.wf(),
                pgtbls_phys@.len() == NUM_ENTRIES,
                forall|k: int| 0 <= k < NUM_ENTRIES ==> #[trigger] pgtbls_phys@[k] & 0xFFFu32 == 0,
                vas.wf(),
                vas.usermode,
                vas.pgdir_phys == pgdir_phys,
                forall|k: int| i <= k < NUM_ENTRIES ==> (#[trigger] vas.pgtbls@[k])@.len() == 0,
                forall|k: int|
                    0 <= k < i ==> (#[trigger] vas.pgtbls@[k])@.len() == self.pgtbls@[k]@.len(),
                forall|k: int, j: int|
                    0 <= k < i && 0 <= j < vas.pgtbls@[k]@.len() ==> {
                        &&& (#[trigger] vas.pgtbls@[k]@[j]).has(PRESENT_BIT)
                            == self.pgtbls@[k]@[j].has(PRESENT_BIT)
                        &&& self.pgtbls@[k]@[j].has(PRESENT_BIT) ==> {
                            &&& vas.pgtbls@[k]@[j].spec_addr() == self.pgtbls@[k]@[j].spec_addr()
                            &&& vas.pgtbls@[k]@[j].has(READ_WRITE_BIT)
                            &&& vas.pgtbls@[k]@[j].has(ANY_DPL_BIT)
                        }
                    },
            decreases NUM_ENTRIES - i,
        {
            if self.pgdir[i].has_flag(PRESENT_BIT) {
                let table = user_table_copy(&self.pgtbls[i]);
                vas.set_pde_addr(i, table, pgtbls_phys[i]);
            }
            i = i + 1;
        }
        proof {
            assert forall|v: u32| #[trigger] vas.translate(v) == self.translate(v) by {
                lemma_page_indices(v);
            }
            assert forall|v: u32|
                (#[trigger] vas.translate(v)) is Some implies vas.pte(v).has(READ_WRITE_BIT)
                && vas.pte(v).has(ANY_DPL_BIT) by {
                lemma_page_indices(v);
            }
        }
        vas
    }
}

/// The first `n` page tables of `vas` identity-map their memory, read-write
/// and user-accessible.
pub open spec fn identity_filled(vas: &VirtAddrSpace, n: int) -> bool {
    forall|k: int, j: int| 0 <= k < n && 0 <= j < NUM_ENTRIES ==> #[trigger] identity_entry(vas, k, j)
}

/// Entry `j` of page table `k` identity-maps its page, read-write and
/// user-accessible.
pub open spec fn identity_entry(vas: &VirtAddrSpace, k: int, j: int) -> bool {
    &&& vas.pgtbls@[k]@.len() == NUM_ENTRIES
    &&& vas.pgtbls@[k]@[j].spec_addr() == ((k as u32) << 22u32) | ((j as u32) << 12u32)
    &&& vas.pgtbls@[k]@[j].has(PRESENT_BIT)
    &&& vas.pgtbls@[k]@[j].has(READ_WRITE_BIT)
    &&& vas.pgtbls@[k]@[j].has(ANY_DPL_BIT)
}

/// The page table that identity-maps the 4 MiB at index `i` of the directory,
/// read-write and user-accessible.
fn identity_table(i: u32) -> (r: Vec<Entry>)
    requires
        i < 1024,
    ensures
        r@.len() == NUM_ENTRIES,
        forall|j: int|
            0 <= j < NUM_ENTRIES ==> {
                &&& (#[trigger] r@[j]).spec_addr() == (i << 22u32) | ((j as u32) << 12u32)
                &&& r@[j].has(PRESENT_BIT)
                &&& r@[j].has(READ_WRITE_BIT)
                &&& r@[j].has(ANY_DPL_BIT)
            },
{
    let mut v: Vec<Entry> = Vec::new();
    let mut j: u32 = 0;
    while j < 1024
        invariant
            i < 1024,
            j <= 1024,
            v@.len() == j,
            forall|k: int|
                0 <= k < j ==> {
                    &&& (#[trigger] v@[k]).spec_addr() == (i << 22u32) | ((k as u32) << 12u32)
                    &&& v@[k].has(PRESENT_BIT)
                    &&& v@[k].has(READ_WRITE_BIT)
                    &&& v@[k].has(ANY_DPL_BIT)
                },
        decreases 1024 - j,
    {
        proof {
            lemma_join_indices(i, j);
        }
        let mut e = Entry::missing();
        e.set_addr((i << 22u32) | (j << 12u32));
        e.set_flag(PRESENT_BIT);
        e.set_flag(READ_WRITE_BIT);
        e.set_flag(ANY_DPL_BIT);
        v.push(e);
        j = j + 1;
    }
    v
}

/// A copy of a page table in which every present entry keeps its frame but
/// becomes read-write and user-accessible, with its other flags cleared.
fn user_table_copy(src: &Vec<Entry>) -> (r: Vec<Entry>)
    requires
        src@.len() == NUM_ENTRIES,
    ensures
        r@.len() == NUM_ENTRIES,
        forall|j: int|
            0 <= j < NUM_ENTRIES ==> {
                &&& (#[trigger] r@[j]).has(PRESENT_BIT) == src@[j].has(PRESENT_BIT)
                &&& src@[j].has(PRESENT_BIT) ==> {
                    &&& r@[j].spec_addr() == src@[j].spec_addr()
                    &&& r@[j].has(READ_WRITE_BIT)
                    &&& r@[j].has(ANY_DPL_BIT)
                }
            },
{
    let mut v: Vec<Entry> = Vec::new();
    let mut j: usize = 0;
    while j < NUM_ENTRIES
        invariant
            j <= NUM_ENTRIES,
            src@.len() == NUM_ENTRIES,
            v@.len() == j,
            forall|k: int|
                0 <= k < j ==> {
                    &&& (#[trigger] v@[k]).has(PRESENT_BIT) == src@[k].has(PRESENT_BIT)
                    &&& src@[k].has(PRESENT_BIT) ==> {
                        &&& v@[k].spec_addr() == src@[k].spec_addr()
                        &&& v@[k].has(READ_WRITE_BIT)
                        &&& v@[k].has(ANY_DPL_BIT)
                    }
                },
        decreases NUM_ENTRIES - j,
    {
        let old_e = src[j];
        if old_e.has_flag(PRESENT_BIT) {
            let mut e = Entry::new(old_e.addr());
            proof {
                lemma_addr_bits_aligned(old_e.0);
            }
            e.set_flag(PRESENT_BIT);
            e.set_flag(READ_WRITE_BIT);
            e.set_flag(ANY_DPL_BIT);
            v.push(e);
        } else {
            v.push(old_e);
        }
        j = j + 1;
    }
    v
}

/// The address part of an entry has no flag bits, and taking the address
/// part again leaves it as it is.
proof fn lemma_addr_bits_aligned(v: u32)
    ensures
        (v & !0xFFFu32) & !0xFFFu32 == v & !0xFFFu32,
        (v & !0xFFFu32) & 0xFFFu32 == 0,
        (0u32 >> 0u32) & 1u32 == 0,
{
    assert((v & !0xFFFu32) & !0xFFFu32 == v & !0xFFFu32 && (v & !0xFFFu32) & 0xFFFu32 == 0 && (0u32
        >> 0u32) & 1u32 == 0) by (bit_vector);
}


/// Two different page-aligned addresses fall into different page table
/// slots.
pub proof fn lemma_distinct_pages_distinct_slots(a: u32, b: u32)
    requires
        a & 0xFFFu32 == 0,
        b & 0xFFFu32 == 0,
        a != b,
    ensures
        pde_index(a) != pde_index(b) || pte_index(a) != pte_index(b),
{
    lemma_page_indices(a);
    lemma_page_indices(b);
    lemma_page_aligned_u32(a);
    lemma_page_aligned_u32(b);
}

/// Page `k` of the range that starts at `start`.
pub open spec fn nth_page(start: u32, k: int) -> u32 {
    (start + 4096 * k) as u32
}

impl VirtAddrSpace {
    /// Maps the pages of `start..end` to frames popped from the stack of
    /// free pages: the first page to the frame on top of the stack, and so
    /// on.  The page tables must exist and the stack must hold enough
    /// page-aligned frames.
    pub fn allocate_pages_from_stack(&mut self, start: u32, end: u32, stack: &mut PmmStack)
        requires
            old(self).wf(),
            old(stack).wf(),
            start % 4096 == 0,
            end % 4096 == 0,
            start <= end,
            (end - start) / 4096 <= old(stack).pages@.len(),
            forall|i: int| 0 <= i < old(stack).pages@.len() ==> #[trigger] old(stack).pages@[i]
                & 0xFFFu32 == 0,
            forall|k: int| 0 <= k < (end - start) / 4096 ==> #[trigger] old(self).has_table(
                nth_page(start, k),
            ),
        ensures
            final(self).wf(),
            final(stack).wf(),
            final(stack).capacity == old(stack).capacity,
            final(stack).pages@ == old(stack).pages@.take(
                old(stack).pages@.len() - (end - start) / 4096,
            ),
            forall|k: int|
                0 <= k < (end - start) / 4096 ==> #[trigger] final(self).translate(nth_page(start, k))
                    == Some(old(stack).pages@[old(stack).pages@.len() - 1 - k]),
            forall|w: u32| (w < start || w >= end) ==> #[trigger] final(self).translate(w) == old(self).translate(w),
            final(self).pgtbls_phys@ == old(self).pgtbls_phys@,
            final(self).usermode == old(self).usermode,
            final(self).pgdir_phys == old(self).pgdir_phys,
    {
        let ghost n = (end - start) / 4096;
        let ghost s0 = stack.pages@;
        let mut virt = start;
        let mut k: u32 = 0;
        while virt < end
            invariant
                self.wf(),
                forall|w: u32| (w < start || w >= end) ==> #[trigger] self.translate(w) == old(self).translate(w),
                self.pgtbls_phys@ == old(self).pgtbls_phys@,
                self.usermode == old(self).usermode,
                self.pgdir_phys == old(self).pgdir_phys,
                stack.wf(),
                stack.capacity == old(stack).capacity,
                s0 == old(stack).pages@,
                n == (end - start) / 4096,
                n <= s0.len(),
                start % 4096 == 0,
                end % 4096 == 0,
                start <= virt <= end,
                virt == start + 4096 * k,
                k <= n,
                stack.pages@ == s0.take(s0.len() - k),
                forall|i: int| 0 <= i < s0.len() ==> #[trigger] s0[i] & 0xFFFu32 == 0,
                forall|j: int| 0 <= j < n ==> #[trigger] self.has_table(nth_page(start, j)),
                forall|j: int|
                    0 <= j < k ==> #[trigger] self.translate(nth_page(start, j)) == Some(
                        s0[s0.len() - 1 - j],
                    ),
            decreases end - virt,
        {
            assert(k < n) by (nonlinear_arith)
                requires
                    virt == start + 4096 * k,
                    virt < end,
                    n == (end - start) / 4096,
                    start % 4096 == 0,
                    end % 4096 == 0,
            ;
            assert(stack.pages@.len() > 0);
            let phys = stack.pop_page();
            assert(phys == s0[s0.len() - 1 - k]);
            assert(stack.pages@ =~= s0.take(s0.len() - k - 1));
            assert(virt % 4096 == 0) by (nonlinear_arith)
                requires
                    virt == start + 4096 * k,
                    start % 4096 == 0,
            ;
            proof {
                lemma_page_aligned_u32(virt);
                assert(nth_page(start, k as int) == virt);
            }
            let ghost before = *self;
            self.map_page(virt, phys);
            proof {
                assert forall|j: int| 0 <= j < n implies #[trigger] self.has_table(nth_page(start, j)) by {
                    lemma_page_indices(nth_page(start, j));
                    assert(before.has_table(nth_page(start, j)));
                }
                assert forall|j: int| 0 <= j < k + 1 implies #[trigger] self.translate(
                    nth_page(start, j),
                ) == Some(s0[s0.len() - 1 - j]) by {
                    if j < k {
                        let w = nth_page(start, j);
                        assert(w % 4096 == 0 && w < virt) by (nonlinear_arith)
                            requires
                                w == start + 4096 * j,
                                0 <= j < k,
                                virt == start + 4096 * k,
                                start % 4096 == 0,
                        ;
                        lemma_page_aligned_u32(w);
                        lemma_distinct_pages_distinct_slots(w, virt);
                        lemma_map_then_translate(before, *self, virt, phys, w);
                    }
                }
                assert(virt + 4096 <= end) by (nonlinear_arith)
                    requires
                        virt == start + 4096 * k,
                        k < n,
                        n == (end - start) / 4096,
                        start <= end,
                ;
                assert forall|w: u32| (w < start || w >= end) implies #[trigger] self.translate(w) == old(self).translate(w) by {
                    if pde_index(w) == pde_index(virt) && pte_index(w) == pte_index(virt) {
                        lemma_same_indices_same_page(w, virt);
                    } else {
                        lemma_map_then_translate(before, *self, virt, phys, w);
                    }
                }
            }
            virt = virt + 4096;
            k = k + 1;
        }
        assert(k == n) by (nonlinear_arith)
            requires
                virt == start + 4096 * k,
                virt >= end,
                virt <= end,
                n == (end - start) / 4096,
        ;
    }
}

/// An address whose page indices are those of page `v` lies in that page.
proof fn lemma_same_indices_same_page(w: u32, v: u32)
    requires
        v & 0xFFFu32 == 0,
        pde_index(w) == pde_index(v),
        pte_index(w) == pte_index(v),
    ensures
        v <= w < v + 4096,
{
    assert(v <= w && w < v + 4096) by (bit_vector)
        requires
            v & 0xFFFu32 == 0,
            w >> 22u32 == v >> 22u32,
            (w >> 12u32) & 0x3FFu32 == (v >> 12u32) & 0x3FFu32,
    ;
}

/// How many of the first `k` pages from `start` are not mapped in `vas`.
pub open spec fn missing_pages(vas: VirtAddrSpace, start: u32, k: int) -> int
    decreases k,
{
    if k <= 0 {
        0
    } else {
        missing_pages(vas, start, k - 1) + if vas.translate(nth_page(start, k - 1)) is None {
            1int
        } else {
            0int
        }
    }
}

proof fn lemma_missing_pages_monotone(vas: VirtAddrSpace, start: u32, i: int, j: int)
    requires
        0 <= i <= j,
    ensures
        0 <= missing_pages(vas, start, i) <= missing_pages(vas, start, j),
        missing_pages(vas, start, j) <= j,
    decreases j,
{
    if j > 0 {
        if i < j {
            lemma_missing_pages_monotone(vas, start, i, j - 1);
        } else {
            lemma_missing_pages_monotone(vas, start, 0, j - 1);
        }
    }
}

/// Page `k` from `start` lies below `end` and is page-aligned.
proof fn lemma_nth_page_aligned(start: u32, end: u32, k: int)
    requires
        start % 4096 == 0,
        end % 4096 == 0,
        start <= end,
        0 <= k < (end - start) / 4096,
    ensures
        nth_page(start, k) == start + 4096 * k,
        nth_page(start, k) & 0xFFFu32 == 0,
        nth_page(start, k) < end,
{
    assert(start + 4096 * k < end && (start + 4096 * k) % 4096 == 0) by (nonlinear_arith)
        requires
            start % 4096 == 0,
            end % 4096 == 0,
            start <= end,
            0 <= k < (end - start) / 4096,
    ;
    lemma_page_aligned_u32(nth_page(start, k));
}

impl VirtAddrSpace {
    /// Maps each page of `start..end` that is not mapped yet to a frame
    /// popped from the stack of free pages, in order; pages already mapped
    /// stay as they are.  The page tables must exist, and the stack must
    /// hold a page-aligned frame for each page that is missing.
    pub fn map_missing_pages(&mut self, start: u32, end: u32, stack: &mut PmmStack)
        requires
            old(self).wf(),
            old(stack).wf(),
            start % 4096 == 0,
            end % 4096 == 0,
            start <= end,
            missing_pages(*old(self), start, (end - start) / 4096) <= old(stack).pages@.len(),
            forall|i: int| 0 <= i < old(stack).pages@.len() ==> #[trigger] old(stack).pages@[i]
                & 0xFFFu32 == 0,
            forall|k: int| 0 <= k < (end - start) / 4096 ==> #[trigger] old(self).has_table(
                nth_page(start, k),
            ),
        ensures
            final(self).wf(),
            final(stack).wf(),
            final(stack).capacity == old(stack).capacity,
            final(stack).pages@ == old(stack).pages@.take(
                old(stack).pages@.len() - missing_pages(*old(self), start, (end - start) / 4096),
            ),
            forall|k: int|
                0 <= k < (end - start) / 4096 ==> #[trigger] final(self).translate(nth_page(start, k))
                    == if old(self).translate(nth_page(start, k)) is Some {
                    old(self).translate(nth_page(start, k))
                } else {
                    Some(old(stack).pages@[old(stack).pages@.len() - 1 - missing_pages(*old(self), start, k)])
                },
            final(self).pgtbls_phys@ == old(self).pgtbls_phys@,
    {
        let ghost n = (end - start) / 4096;
        let ghost s0 = stack.pages@;
        let ghost v0 = *self;
        let mut virt = start;
        let mut k: u32 = 0;
        while virt < end
            invariant
                self.wf(),
                stack.wf(),
                stack.capacity == old(stack).capacity,
                s0 == old(stack).pages@,
                v0 == *old(self),
                self.pgtbls_phys@ == v0.pgtbls_phys@,
                n == (end - start) / 4096,
                missing_pages(v0, start, n) <= s0.len(),
                start % 4096 == 0,
                end % 4096 == 0,
                start <= virt <= end,
                virt == start + 4096 * k,
                k <= n,
                stack.pages@ == s0.take(s0.len() - missing_pages(v0, start, k as int)),
                forall|i: int| 0 <= i < s0.len() ==> #[trigger] s0[i] & 0xFFFu32 == 0,
                forall|j: int| 0 <= j < n ==> #[trigger] self.has_table(nth_page(start, j)),
                forall|j: int|
                    0 <= j < k ==> #[trigger] self.translate(nth_page(start, j)) == if v0.translate(
                        nth_page(start, j),
                    ) is Some {
                        v0.translate(nth_page(start, j))
                    } else {
                        Some(s0[s0.len() - 1 - missing_pages(v0, start, j)])
                    },
                forall|j: int| k <= j < n ==> #[trigger] self.translate(nth_page(start, j)) == v0.translate(
                    nth_page(start, j),
                ),
            decreases end - virt,
        {
            assert(k < n) by (nonlinear_arith)
                requires
                    virt == start + 4096 * k,
                    virt < end,
                    n == (end - start) / 4096,
                    start % 4096 == 0,
                    end % 4096 == 0,
            ;
            proof {
                lemma_nth_page_aligned(start, end, k as int);
                lemma_missing_pages_monotone(v0, start, k as int, k + 1);
                lemma_missing_pages_monotone(v0, start, k + 1, n);
            }
            let ghost before = *self;
            let ghost mk = missing_pages(v0, start, k as int);
            if self.virt_to_phys(virt).is_none() {
                assert(v0.translate(nth_page(start, k as int)) is None);
                let phys = stack.pop_page();
                assert(phys == s0[s0.len() - 1 - mk]);
                assert(stack.pages@ =~= s0.take(s0.len() - mk - 1));
                self.map_page(virt, phys);
                proof {
                    assert forall|j: int| 0 <= j < n implies #[trigger] self.has_table(nth_page(start, j)) by {
                        lemma_page_indices(nth_page(start, j));
                        assert(before.has_table(nth_page(start, j)));
                    }
                    assert forall|j: int| 0 <= j < n && j != k implies #[trigger] self.translate(
                        nth_page(start, j),
                    ) == before.translate(nth_page(start, j)) by {
                        lemma_nth_page_aligned(start, end, j);
                        lemma_distinct_pages_distinct_slots(nth_page(start, j), virt);
                        lemma_map_then_translate(before, *self, virt, phys, nth_page(start, j));
                    }
                }
            } else {
                assert(v0.translate(nth_page(start, k as int)) is Some);
            }
            virt = virt + 4096;
            k = k + 1;
        }
        assert(k == n) by (nonlinear_arith)
            requires
                virt == start + 4096 * k,
                virt >= end,
                virt <= end,
                n == (end - start) / 4096,
        ;
    }
}

/// Installing an empty page table in a slot that had none changes no
/// translation.
pub proof fn lemma_new_table_keeps_translations(before: VirtAddrSpace, after: VirtAddrSpace, d: int)
    requires
        0 <= d < NUM_ENTRIES,
        before.pgtbls@.len() == NUM_ENTRIES,
        after.pgtbls@.len() == NUM_ENTRIES,
        before.pgtbls@[d]@.len() == 0,
        after.pgtbls@[d]@.len() == NUM_ENTRIES,
        forall|i: int| 0 <= i < NUM_ENTRIES ==> (#[trigger] after.pgtbls@[d]@[i]).0 == 0,
        forall|i: int| 0 <= i < NUM_ENTRIES && i != d ==> #[trigger] after.pgtbls@[i] == before.pgtbls@[i],
    ensures
        forall|w: u32| #[trigger] after.translate(w) == before.translate(w),
{
    assert forall|w: u32| #[trigger] after.translate(w) == before.translate(w) by {
        lemma_page_indices(w);
        if pde_index(w) == d {
            assert(after.pte(w).0 == 0);
            assert((0u32 >> 0u32) & 1u32 == 0) by (bit_vector);
        } else {
            assert(after.pgtbls@[pde_index(w)] == before.pgtbls@[pde_index(w)]);
        }
    }
}

/// Spaces that translate every address alike miss the same pages.
pub proof fn lemma_missing_pages_alike(a: VirtAddrSpace, b: VirtAddrSpace, start: u32, k: int)
    requires
        forall|w: u32| #[trigger] a.translate(w) == b.translate(w),
    ensures
        missing_pages(a, start, k) == missing_pages(b, start, k),
    decreases k,
{
    if k > 0 {
        lemma_missing_pages_alike(a, b, start, k - 1);
        assert(a.translate(nth_page(start, k - 1)) == b.translate(nth_page(start, k - 1)));
    }
}

/// How many of the `k` directory slots from slot `first` on have no page
/// table.
pub open spec fn missing_tables(vas: VirtAddrSpace, first: int, k: int) -> int
    decreases k,
{
    if k <= 0 {
        0
    } else {
        missing_tables(vas, first, k - 1) + if vas.pgtbls@[first + k - 1]@.len() == 0 {
            1int
        } else {
            0int
        }
    }
}

proof fn lemma_missing_tables_monotone(vas: VirtAddrSpace, first: int, i: int, j: int)
    requires
        0 <= i <= j,
    ensures
        0 <= missing_tables(vas, first, i) <= missing_tables(vas, first, j),
        missing_tables(vas, first, j) <= j,
    decreases j,
{
    if j > 0 {
        if i < j {
            lemma_missing_tables_monotone(vas, first, i, j - 1);
        } else {
            lemma_missing_tables_monotone(vas, first, 0, j - 1);
        }
    }
}

/// The directory slot of the 4 MiB that `start` lies in.
pub open spec fn first_slot(start: u32) -> int {
    (start >> 22u32) as int
}

/// A page between `start` and `end` lies in a slot from the one of
/// `start` up to the one of the last byte before `end`.
proof fn lemma_page_in_slots(start: u32, end: u32, p: u32)
    requires
        start <= p < end,
    ensures
        first_slot(start) <= pde_index(p) <= (((end - 1) as u32) >> 22u32),
{
    let e = (end - 1) as u32;
    lemma_pde_index_is_slot(start);
    lemma_pde_index_is_slot(e);
    lemma_pde_index_is_slot(p);
    assert(start / 0x40_0000u32 <= p / 0x40_0000u32 <= e / 0x40_0000u32) by (nonlinear_arith)
        requires
            start <= p <= e,
    ;
}

/// Whether `start..end` can be mapped afresh with page tables for the slots
/// up to `slots_end` taken from `tables` and frames taken from `frames`:
/// none of its pages is mapped yet, and there are enough frames and page
/// tables.
pub open spec fn can_map_fresh(
    vas: VirtAddrSpace,
    start: u32,
    end: u32,
    slots_end: int,
    tables: Seq<u32>,
    frames: Seq<u32>,
) -> bool {
    &&& forall|k: int| 0 <= k < (end - start) / 4096 ==> #[trigger] vas.translate(nth_page(start, k)) is None
    &&& (end - start) / 4096 <= frames.len()
    &&& missing_tables(vas, first_slot(start), slots_end - first_slot(start)) <= tables.len()
}

/// `after` is `before` with `start..end` mapped afresh: each slot from the
/// one of `start` up to `slots_end` that had no page table got the table
/// popped next from `tables`, and page `k` of the region got the frame
/// popped `k`-th from `frames`; nothing outside the region changed its
/// translation.
pub open spec fn mapped_fresh(
    before: VirtAddrSpace,
    after: VirtAddrSpace,
    start: u32,
    end: u32,
    slots_end: int,
    tables_before: Seq<u32>,
    tables_after: Seq<u32>,
    frames_before: Seq<u32>,
    frames_after: Seq<u32>,
) -> bool {
    &&& frames_after == frames_before.take(frames_before.len() - (end - start) / 4096)
    &&& tables_after == tables_before.take(
        tables_before.len() - missing_tables(before, first_slot(start), slots_end - first_slot(start)),
    )
    &&& forall|k: int|
        0 <= k < (end - start) / 4096 ==> #[trigger] after.translate(nth_page(start, k)) == Some(
            frames_before[frames_before.len() - 1 - k],
        )
    &&& forall|w: u32| (w < start || w >= end) ==> #[trigger] after.translate(w) == before.translate(w)
    &&& forall|d: int|
        first_slot(start) <= d < slots_end && before.pgtbls@[d]@.len() == 0 ==> #[trigger] after.pgtbls_phys@[d]
            == tables_before[tables_before.len() - 1 - missing_tables(before, first_slot(start), d - first_slot(start))]
    &&& after.usermode == before.usermode
    &&& after.pgdir_phys == before.pgdir_phys
}

impl VirtAddrSpace {
    /// Maps the pages of `start..end`, none of which may be mapped yet.
    /// Each 4 MiB slot from the one of `start` up to `slots_end` (which
    /// takes in the slot of the region's last page) that has no page table
    /// gets an empty one, at an address popped from `tables`; then the pages
    /// are mapped to frames popped from the stack of free pages, the first
    /// page to the frame on top.  Nothing outside `start..end` changes its
    /// translation.
    pub fn map_fresh_region(&mut self, start: u32, end: u32, slots_end: usize, tables: &mut Vec<u32>, pages: &mut PmmStack)
        requires
            old(self).wf(),
            old(pages).wf(),
            start % 4096 == 0,
            end % 4096 == 0,
            start <= end,
            first_slot(start) <= slots_end <= NUM_ENTRIES,
            start < end ==> (((end - 1) as u32) >> 22u32) < slots_end,
            can_map_fresh(*old(self), start, end, slots_end as int, old(tables)@, old(pages).pages@),
            forall|i: int| 0 <= i < old(pages).pages@.len() ==> #[trigger] old(pages).pages@[i] & 0xFFFu32 == 0,
            forall|i: int| 0 <= i < old(tables)@.len() ==> #[trigger] old(tables)@[i] & 0xFFFu32 == 0,
        ensures
            final(self).wf(),
            final(pages).wf(),
            final(pages).capacity == old(pages).capacity,
            mapped_fresh(
                *old(self),
                *final(self),
                start,
                end,
                slots_end as int,
                old(tables)@,
                final(tables)@,
                old(pages).pages@,
                final(pages).pages@,
            ),
    {
        let ghost v0 = *self;
        let ghost t0 = tables@;
        let ghost first_i = first_slot(start);
        let ghost count = slots_end - first_slot(start);
        let first = (start >> 22u32) as usize;
        let stop = slots_end;
        let mut d = first;
        let ghost mut used: int = 0;
        proof {
            lemma_missing_tables_monotone(v0, first_i, 0, count);
        }
        while d < stop
            invariant
                self.wf(),
                first == first_i,
                stop == first_i + count,
                first <= d <= stop,
                stop <= NUM_ENTRIES,
                used == missing_tables(v0, first_i, d - first_i),
                missing_tables(v0, first_i, count) <= t0.len(),
                tables@ == t0.take(t0.len() - used),
                forall|i: int| 0 <= i < t0.len() ==> #[trigger] t0[i] & 0xFFFu32 == 0,
                forall|j: int| first <= j < d ==> (#[trigger] self.pgtbls@[j])@.len() == NUM_ENTRIES,
                forall|j: int|
                    0 <= j < NUM_ENTRIES && !(first <= j < d && v0.pgtbls@[j]@.len() == 0) ==> #[trigger] self.pgtbls@[j]
                        == v0.pgtbls@[j],
                forall|j: int|
                    first <= j < d && v0.pgtbls@[j]@.len() == 0 ==> #[trigger] self.pgtbls_phys@[j] == t0[t0.len() - 1
                        - missing_tables(v0, first_i, j - first_i)],
                forall|w: u32| #[trigger] self.translate(w) == v0.translate(w),
                self.usermode == v0.usermode,
                self.pgdir_phys == v0.pgdir_phys,
                v0.wf(),
            decreases stop - d,
        {
            proof {
                lemma_missing_tables_monotone(v0, first_i, d - first_i, d - first_i + 1);
                lemma_missing_tables_monotone(v0, first_i, d - first_i + 1, count);
                assert(missing_tables(v0, first_i, d - first_i + 1) == missing_tables(v0, first_i, d - first_i) + if v0.pgtbls@[d as int]@.len() == 0 { 1int } else { 0int });
            }
            if self.pgtbls[d].len() == 0 {
                assert(v0.pgtbls@[d as int]@.len() == 0);
                let t = tables.pop().unwrap();
                assert(t == t0[t0.len() - 1 - used]);
                assert(tables@ =~= t0.take(t0.len() - (used + 1)));
                let ghost before = *self;
                self.set_pde_addr(d, empty_entries(), t);
                proof {
                    assert forall|j: int|
                        first <= j < d + 1 && v0.pgtbls@[j]@.len() == 0 implies #[trigger] self.pgtbls_phys@[j]
                            == t0[t0.len() - 1 - missing_tables(v0, first_i, j - first_i)] by {
                        if j < d {
                            assert(self.pgtbls@[j] == before.pgtbls@[j]);
                            assert(before.pgtbls_phys@[j] == t0[t0.len() - 1 - missing_tables(v0, first_i, j - first_i)]);
                        } else {
                            assert(j == d);
                            assert(self.pgtbls_phys@[j] == t);
                        }
                    }
                    used = used + 1;
                    assert forall|w: u32| #[trigger] self.translate(w) == v0.translate(w) by {
                        lemma_page_indices(w);
                        assert(before.translate(w) == v0.translate(w));
                        if pde_index(w) == d {
                            assert(!before.has_table(w));
                            assert(self.pte(w).0 == 0);
                            assert((0u32 >> 0u32) & 1u32 == 0) by (bit_vector);
                        } else {
                            assert(self.pgtbls@[pde_index(w)] == before.pgtbls@[pde_index(w)]);
                        }
                    }
                }
            } else {
                assert(v0.pgtbls@[d as int]@.len() == NUM_ENTRIES);
            }
            d = d + 1;
        }
        proof {
            assert forall|k: int| 0 <= k < (end - start) / 4096 implies #[trigger] self.has_table(nth_page(start, k)) by {
                lemma_nth_page_aligned(start, end, k);
                lemma_page_in_slots(start, end, nth_page(start, k));
            }
        }
        let ghost v1 = *self;
        self.allocate_pages_from_stack(start, end, pages);
        proof {
            assert forall|w: u32| (w < start || w >= end) implies #[trigger] self.translate(w) == v0.translate(w) by {
                assert(v1.translate(w) == v0.translate(w));
            }
        }
    }
}

/// What the error code of a page fault tells.
#[derive(Clone, Copy, Debug, PartialEq, Eq, Structural)]
pub struct PageFaultCause {
    /// A protection violation (else the page was not present).
    pub protection_violation: bool,
    /// A write (else a read).
    pub write: bool,
    /// In user mode (else in the kernel).
    pub userspace: bool,
    /// An instruction fetch.
    pub instruction_fetch: bool,
}

/// The page fault error code's bits 0 to 3.
pub fn page_fault_cause(err_code: u32) -> (r: PageFaultCause)
    ensures
        r.protection_violation == bit32(err_code, 0),
        r.write == bit32(err_code, 1),
        r.userspace == bit32(err_code, 2),
        r.instruction_fetch == bit32(err_code, 3),
{
    PageFaultCause {
        protection_violation: (err_code >> 0u32) & 1u32 != 0,
        write: (err_code >> 1u32) & 1u32 != 0,
        userspace: (err_code >> 2u32) & 1u32 != 0,
        instruction_fetch: (err_code >> 3u32) & 1u32 != 0,
    }
}

/// What the kernel's address space shows about a faulting address.
#[derive(Clone, Copy, Debug, PartialEq, Eq, Structural)]
pub enum FaultedPage {
    /// No page table covers the address.
    NoTable,
    /// The page is a guard page.
    GuardPage,
    /// The page has an entry that is not a guard page.
    Other,
}

impl VirtAddrSpace {
    /// Looks up the page of a faulting address: whether a page table covers
    /// it and whether its entry marks a guard page.
    pub fn faulted_page(&self, cr2: u32) -> (r: FaultedPage)
        requires
            self.wf(),
        ensures
            !self.has_table(cr2 & !0xFFFu32) ==> r == FaultedPage::NoTable,
            self.has_table(cr2 & !0xFFFu32) ==> r == if self.pte(cr2 & !0xFFFu32).has(GUARD_PAGE_BIT) {
                FaultedPage::GuardPage
            } else {
                FaultedPage::Other
            },
    {
        let page = cr2 & !0xFFFu32;
        if !self.pgtbl_exists(page) {
            FaultedPage::NoTable
        } else if self.pgtbl_entry(page).has_flag(GUARD_PAGE_BIT) {
            FaultedPage::GuardPage
        } else {
            FaultedPage::Other
        }
    }
}

impl VirtAddrSpace {
    /// Maps `n` consecutive pages from `virt` to the `n` consecutive frames
    /// from `phys`.  The page tables must exist.
    pub fn map_range(&mut self, virt: u32, phys: u32, n: u32)
        requires
            old(self).wf(),
            virt % 4096 == 0,
            phys % 4096 == 0,
            virt + 4096 * n <= u32::MAX,
            phys + 4096 * n <= u32::MAX,
            forall|k: int| 0 <= k < n ==> #[trigger] old(self).has_table(nth_page(virt, k)),
        ensures
            final(self).wf(),
            forall|k: int| 0 <= k < n ==> #[trigger] final(self).translate(nth_page(virt, k)) == Some(
                nth_page(phys, k),
            ),
    {
        let mut k: u32 = 0;
        while k < n
            invariant
                self.wf(),
                virt % 4096 == 0,
                phys % 4096 == 0,
                virt + 4096 * n <= u32::MAX,
                phys + 4096 * n <= u32::MAX,
                k <= n,
                forall|j: int| 0 <= j < n ==> #[trigger] self.has_table(nth_page(virt, j)),
                forall|j: int| 0 <= j < k ==> #[trigger] self.translate(nth_page(virt, j)) == Some(nth_page(phys, j)),
            decreases n - k,
        {
            assert(4096 * k < 4096 * n) by (nonlinear_arith)
                requires
                    k < n,
            ;
            let v = virt + 4096 * k;
            let p = phys + 4096 * k;
            assert(v % 4096 == 0 && p % 4096 == 0) by (nonlinear_arith)
                requires
                    v == virt + 4096 * k,
                    p == phys + 4096 * k,
                    virt % 4096 == 0,
                    phys % 4096 == 0,
            ;
            proof {
                lemma_page_aligned_u32(v);
                lemma_page_aligned_u32(p);
                assert(nth_page(virt, k as int) == v);
                assert(nth_page(phys, k as int) == p);
            }
            let ghost before = *self;
            self.map_page(v, p);
            proof {
                assert forall|j: int| 0 <= j < n implies #[trigger] self.has_table(nth_page(virt, j)) by {
                    lemma_page_indices(nth_page(virt, j));
                    assert(before.has_table(nth_page(virt, j)));
                }
                assert forall|j: int| 0 <= j < k + 1 implies #[trigger] self.translate(nth_page(virt, j)) == Some(
                    nth_page(phys, j),
                ) by {
                    if j < k {
                        let w = nth_page(virt, j);
                        assert(w == virt + 4096 * j && w % 4096 == 0 && w < v) by (nonlinear_arith)
                            requires
                                w == nth_page(virt, j),
                                0 <= j < k,
                                k < n,
                                v == virt + 4096 * k,
                                virt % 4096 == 0,
                                virt + 4096 * n <= u32::MAX,
                        ;
                        lemma_page_aligned_u32(w);
                        lemma_distinct_pages_distinct_slots(w, v);
                        lemma_map_then_translate(before, *self, v, p, w);
                    }
                }
            }
            k = k + 1;
        }
    }
}

} // verus!
