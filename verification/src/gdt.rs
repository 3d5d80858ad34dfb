use vstd::prelude::*;

verus! {

/// Bits of the access byte of a segment descriptor.
#[derive(Clone, Copy, Debug, PartialEq, Eq, Structural)]
pub enum AccessByte {
    Accessed,
    ReadableWritable,
    ConformingDirection,
    /// Not set: data segment.
    Executable,
    NotTaskStateSegment,
    /// Both privilege bits: ring 3.
    Usermode,
    Present,
}

impl AccessByte {
    pub open spec fn spec_value(self) -> u8 {
        match self {
            AccessByte::Accessed => 0x01,
            AccessByte::ReadableWritable => 0x02,
            AccessByte::ConformingDirection => 0x04,
            AccessByte::Executable => 0x08,
            AccessByte::NotTaskStateSegment => 0x10,
            AccessByte::Usermode => 0x60,
            AccessByte::Present => 0x80,
        }
    }

    pub fn value(self) -> (r: u8)
        ensures
            r == self.spec_value(),
    {
        match self {
            AccessByte::Accessed => 0x01,
            AccessByte::ReadableWritable => 0x02,
            AccessByte::ConformingDirection => 0x04,
            AccessByte::Executable => 0x08,
            AccessByte::NotTaskStateSegment => 0x10,
            AccessByte::Usermode => 0x60,
            AccessByte::Present => 0x80,
        }
    }
}

/// Bits of the flags nibble of a segment descriptor.
#[derive(Clone, Copy, Debug, PartialEq, Eq, Structural)]
pub enum EntryFlags {
    /// Not set: 16-bit protected mode.
    ProtectedMode32Bit,
    /// Not set: byte granularity.
    PageGranularity,
}

impl EntryFlags {
    pub open spec fn spec_value(self) -> u8 {
        match self {
            EntryFlags::ProtectedMode32Bit => 0x40,
            EntryFlags::PageGranularity => 0x80,
        }
    }

    pub fn value(self) -> (r: u8)
        ensures
            r == self.spec_value(),
    {
        match self {
            EntryFlags::ProtectedMode32Bit => 0x40,
            EntryFlags::PageGranularity => 0x80,
        }
    }
}

/// A segment descriptor, field by field as the processor reads it.
#[derive(Clone, Copy, Debug)]
pub struct Entry {
    pub limit_0_15: u16,
    pub base_0_15: u16,
    pub base_16_23: u8,
    pub access_byte: u8,
    pub flags_limit_16_19: u8,
    pub base_24_31: u8,
}

impl Entry {
    /// The segment base that the descriptor encodes.
    pub open spec fn spec_base(self) -> u32 {
        (self.base_0_15 as u32) | ((self.base_16_23 as u32) << 16u32) | ((self.base_24_31 as u32)
            << 24u32)
    }

    /// The 20-bit segment limit that the descriptor encodes.
    pub open spec fn spec_limit(self) -> u32 {
        (self.limit_0_15 as u32) | (((self.flags_limit_16_19 & 0xFu8) as u32) << 16u32)
    }

    /// The descriptor with all fields zero.
    pub open spec fn spec_is_null(self) -> bool {
        &&& self.limit_0_15 == 0
        &&& self.base_0_15 == 0
        &&& self.base_16_23 == 0
        &&& self.access_byte == 0
        &&& self.flags_limit_16_19 == 0
        &&& self.base_24_31 == 0
    }

    /// The limit must fit in 20 bits.
    pub fn new(base: u32, limit: u32, access_byte: u8, flags: u8) -> (r: Entry)
        requires
            limit >> 20u32 == 0,
        ensures
            r.limit_0_15 == limit as u16,
            r.base_0_15 == base as u16,
            r.base_16_23 == (base >> 16u32) as u8,
            r.access_byte == access_byte,
            r.flags_limit_16_19 == flags | (((limit >> 16u32) as u8) & 0xFu8),
            r.base_24_31 == (base >> 24u32) as u8,
            r.spec_base() == base,
            flags & 0xFu8 == 0 ==> r.spec_limit() == limit,
    {
        let r = Entry {
            limit_0_15: limit as u16,
            base_0_15: base as u16,
            base_16_23: (base >> 16u32) as u8,
            access_byte,
            flags_limit_16_19: flags | (((limit >> 16u32) as u8) & 0xFu8),
            base_24_31: (base >> 24u32) as u8,
        };
        proof {
            lemma_base_roundtrip(base);
            let f = r.flags_limit_16_19;
            let l0 = r.limit_0_15;
            assert(flags & 0xFu8 == 0 ==> (l0 as u32) | (((f & 0xFu8) as u32) << 16u32) == limit)
                by (bit_vector)
                requires
                    limit >> 20u32 == 0,
                    l0 == limit as u16,
                    f == flags | (((limit >> 16u32) as u8) & 0xFu8),
            ;
        }
        r
    }

    pub fn set_base(&mut self, new_base: u32)
        ensures
            final(self).base_0_15 == new_base as u16,
            final(self).base_16_23 == (new_base >> 16u32) as u8,
            final(self).base_24_31 == (new_base >> 24u32) as u8,
            final(self).limit_0_15 == old(self).limit_0_15,
            final(self).access_byte == old(self).access_byte,
            final(self).flags_limit_16_19 == old(self).flags_limit_16_19,
            final(self).spec_base() == new_base,
    {
        self.base_0_15 = new_base as u16;
        self.base_16_23 = (new_base >> 16u32) as u8;
        self.base_24_31 = (new_base >> 24u32) as u8;
        proof {
            lemma_base_roundtrip(new_base);
        }
    }

    pub fn missing() -> (r: Entry)
        ensures
            r.spec_is_null(),
    {
        Entry {
            limit_0_15: 0,
            base_0_15: 0,
            base_16_23: 0,
            access_byte: 0,
            flags_limit_16_19: 0,
            base_24_31: 0,
        }
    }

    pub fn is_null(&self) -> (r: bool)
        ensures
            r == self.spec_is_null(),
    {
        self.limit_0_15 == 0 && self.base_0_15 == 0 && self.base_16_23 == 0 && self.access_byte
            == 0 && self.flags_limit_16_19 == 0 && self.base_24_31 == 0
    }
}

/// Splitting a base into its three descriptor fields and joining them back
/// gives the base.
proof fn lemma_base_roundtrip(base: u32)
    ensures
        ((base as u16) as u32) | ((((base >> 16u32) as u8) as u32) << 16u32) | ((((base >> 24u32)
            as u8) as u32) << 24u32) == base,
{
    assert(((base as u16) as u32) | ((((base >> 16u32) as u8) as u32) << 16u32) | ((((base
        >> 24u32) as u8) as u32) << 24u32) == base) by (bit_vector);
}

impl Default for Entry {
    fn default() -> (r: Entry)
        ensures
            r.spec_is_null(),
    {
        Entry::missing()
    }
}

/// Size in bytes of [`TaskStateSegment`] as laid out in memory.
pub const TSS_SIZE: u16 = 102;

/// The task state segment; only the ring 0 stack and the I/O map base are
/// used.
#[derive(Clone, Copy, Debug)]
pub struct TaskStateSegment {
    pub link: u16,
    pub reserved_link: u16,
    pub esp0: u32,
    pub ss0: u16,
    pub reserved_ss0: u16,
    pub esp1: u32,
    pub ss1: u16,
    pub reserved_ss1: u16,
    pub esp2: u16,
    pub ss2: u16,
    pub reserved_ss2: u16,
    pub cr3: u32,
    pub eip: u32,
    pub eflags: u32,
    pub eax: u32,
    pub ecx: u32,
    pub edx: u32,
    pub ebx: u32,
    pub esp: u32,
    pub ebp: u32,
    pub esi: u32,
    pub edi: u32,
    pub es: u16,
    pub reserved_es: u16,
    pub cs: u16,
    pub reserved_cs: u16,
    pub ss: u16,
    pub reserved_ss: u16,
    pub ds: u16,
    pub reserved_ds: u16,
    pub fs: u16,
    pub reserved_fs: u16,
    pub gs: u16,
    pub reserved_gs: u16,
    pub ldtr: u16,
    pub reserved_ldtr: u16,
    pub reserved_iopb_offset: u16,
    pub iobp_offset: u16,
}

impl TaskStateSegment {
    /// An empty task state segment whose I/O map base points past its end,
    /// so that there is no I/O permission map.
    pub fn new() -> (r: TaskStateSegment)
        ensures
            r == (TaskStateSegment {
                link: 0,
                reserved_link: 0,
                esp0: 0,
                ss0: 0,
                reserved_ss0: 0,
                esp1: 0,
                ss1: 0,
                reserved_ss1: 0,
                esp2: 0,
                ss2: 0,
                reserved_ss2: 0,
                cr3: 0,
                eip: 0,
                eflags: 0,
                eax: 0,
                ecx: 0,
                edx: 0,
                ebx: 0,
                esp: 0,
                ebp: 0,
                esi: 0,
                edi: 0,
                es: 0,
                reserved_es: 0,
                cs: 0,
                reserved_cs: 0,
                ss: 0,
                reserved_ss: 0,
                ds: 0,
                reserved_ds: 0,
                fs: 0,
                reserved_fs: 0,
                gs: 0,
                reserved_gs: 0,
                ldtr: 0,
                reserved_ldtr: 0,
                reserved_iopb_offset: 0,
                iobp_offset: TSS_SIZE,
            }),
    {
        TaskStateSegment {
            link: 0,
            reserved_link: 0,
            esp0: 0,
            ss0: 0,
            reserved_ss0: 0,
            esp1: 0,
            ss1: 0,
            reserved_ss1: 0,
            esp2: 0,
            ss2: 0,
            reserved_ss2: 0,
            cr3: 0,
            eip: 0,
            eflags: 0,
            eax: 0,
            ecx: 0,
            edx: 0,
            ebx: 0,
            esp: 0,
            ebp: 0,
            esi: 0,
            edi: 0,
            es: 0,
            reserved_es: 0,
            cs: 0,
            reserved_cs: 0,
            ss: 0,
            reserved_ss: 0,
            ds: 0,
            reserved_ds: 0,
            fs: 0,
            reserved_fs: 0,
            gs: 0,
            reserved_gs: 0,
            ldtr: 0,
            reserved_ldtr: 0,
            reserved_iopb_offset: 0,
            iobp_offset: TSS_SIZE,
        }
    }
}

pub const NUM_GDT_ENTRIES: usize = 32;

pub const KERNEL_CODE_IDX: usize = 1;
pub const KERNEL_DATA_IDX: usize = 2;
pub const USERMODE_CODE_IDX: usize = 3;
pub const USERMODE_DATA_IDX: usize = 4;
pub const TSS_IDX: usize = 5;
pub const TLS_IDX: usize = 6;

pub const KERNEL_CODE_SEG: u16 = 8;
pub const KERNEL_DATA_SEG: u16 = 16;
pub const USERMODE_CODE_SEG: u16 = 24;
pub const USERMODE_DATA_SEG: u16 = 32;
pub const TSS_SEG: u16 = 40;
pub const TLS_SEG: u16 = 48;

/// The global descriptor table: 32 descriptors, the first being the null
/// one.
pub struct GlobalDescriptorTable(pub Vec<Entry>);

/// The index of the first null descriptor after the null one.
pub open spec fn first_null_after_zero(entries: Seq<Entry>) -> int
    recommends
        exists|i: int| 1 <= i < entries.len() && #[trigger] entries[i].spec_is_null(),
{
    choose|i: int|
        1 <= i < entries.len() && entries[i].spec_is_null() && forall|k: int|
            1 <= k < i ==> !#[trigger] entries[k].spec_is_null()
}

/// A GDT descriptor: the table's size minus one and its linear address.
#[derive(Clone, Copy, Debug)]
pub struct GdtDescriptor {
    pub size: u16,
    pub offset: u32,
}

impl GdtDescriptor {
    /// Stores the descriptor in the layout of a segment descriptor, so that it
    /// can occupy the unused null entry.
    pub fn into_entry(self) -> (r: Entry)
        ensures
            r.limit_0_15 == self.size,
            r.base_0_15 == self.offset as u16,
            r.base_16_23 == (self.offset >> 16u32) as u8,
            r.access_byte == (self.offset >> 24u32) as u8,
            r.flags_limit_16_19 == 0,
            r.base_24_31 == 0,
    {
        Entry {
            limit_0_15: self.size,
            base_0_15: self.offset as u16,
            base_16_23: (self.offset >> 16u32) as u8,
            access_byte: (self.offset >> 24u32) as u8,
            flags_limit_16_19: 0,
            base_24_31: 0,
        }
    }
}

impl GlobalDescriptorTable {
    pub open spec fn wf(&self) -> bool {
        self.0@.len() == NUM_GDT_ENTRIES
    }

    /// A table of null descriptors.
    pub fn new() -> (r: GlobalDescriptorTable)
        ensures
            r.wf(),
            forall|i: int| 0 <= i < NUM_GDT_ENTRIES ==> #[trigger] r.0@[i].spec_is_null(),
    {
        let mut v: Vec<Entry> = Vec::new();
        let mut i: usize = 0;
        while i < NUM_GDT_ENTRIES
            invariant
                i <= NUM_GDT_ENTRIES,
                v@.len() == i,
                forall|k: int| 0 <= k < i ==> #[trigger] v@[k].spec_is_null(),
            decreases NUM_GDT_ENTRIES - i,
        {
            v.push(Entry::missing());
            i = i + 1;
        }
        GlobalDescriptorTable(v)
    }

    /// The number of descriptors in use: the index of the first null
    /// descriptor after the null one.  There must be one.
    pub fn num_segments(&self) -> (r: usize)
        requires
            self.wf(),
            exists|i: int| 1 <= i < NUM_GDT_ENTRIES && #[trigger] self.0@[i].spec_is_null(),
        ensures
            1 <= r < NUM_GDT_ENTRIES,
            self.0@[r as int].spec_is_null(),
            forall|k: int| 1 <= k < r ==> !#[trigger] self.0@[k].spec_is_null(),
            r == first_null_after_zero(self.0@),
    {
        let mut i: usize = 1;
        while i < NUM_GDT_ENTRIES
            invariant
                1 <= i <= NUM_GDT_ENTRIES,
                self.wf(),
                exists|j: int| i <= j < NUM_GDT_ENTRIES && #[trigger] self.0@[j].spec_is_null(),
                forall|k: int| 1 <= k < i ==> !#[trigger] self.0@[k].spec_is_null(),
            decreases NUM_GDT_ENTRIES - i,
        {
            if self.0[i].is_null() {
                let ghost r = i as int;
                assert(1 <= r < self.0@.len() && self.0@[r].spec_is_null() && forall|k: int|
                    1 <= k < r ==> !#[trigger] self.0@[k].spec_is_null());
                assert(first_null_after_zero(self.0@) == i) by {
                    let c = first_null_after_zero(self.0@);
                    if c < r {
                        assert(!self.0@[c].spec_is_null());
                    } else if c > r {
                        assert(!self.0@[r].spec_is_null());
                    }
                }
                return i;
            }
            i = i + 1;
        }
        i
    }

    /// The descriptor of this table for the `lgdt` instruction, given the
    /// table's linear address.
    pub fn descriptor(&self, offset: u32) -> (r: GdtDescriptor)
        requires
            self.wf(),
            exists|i: int| 1 <= i < NUM_GDT_ENTRIES && #[trigger] self.0@[i].spec_is_null(),
        ensures
            r.size == first_null_after_zero(self.0@) * 8 - 1,
            r.offset == offset,
    {
        let n = self.num_segments();
        GdtDescriptor { size: (n * 8 - 1) as u16, offset }
    }
}

/// The kernel's descriptor table: flat code and data segments for rings 0
/// and 3, the task state segment at `tss_addr`, and the thread-local storage
/// segment whose base is set per task.
pub fn kernel_gdt(tss_addr: u32) -> (r: GlobalDescriptorTable)
    ensures
        r.wf(),
        r.0@[0].spec_is_null(),
        r.0@[KERNEL_CODE_IDX as int].access_byte == 0x9A,
        r.0@[KERNEL_DATA_IDX as int].access_byte == 0x92,
        r.0@[USERMODE_CODE_IDX as int].access_byte == 0xFA,
        r.0@[USERMODE_DATA_IDX as int].access_byte == 0xF2,
        r.0@[TSS_IDX as int].access_byte == 0x89,
        r.0@[TLS_IDX as int].access_byte == 0xF2,
        forall|i: int|
            KERNEL_CODE_IDX <= i <= USERMODE_DATA_IDX ==> {
                &&& (#[trigger] r.0@[i]).spec_base() == 0
                &&& r.0@[i].spec_limit() == 0xFFFFF
                &&& r.0@[i].flags_limit_16_19 == 0xCF
            },
        r.0@[TSS_IDX as int].spec_base() == tss_addr,
        r.0@[TSS_IDX as int].spec_limit() == TSS_SIZE,
        r.0@[TLS_IDX as int].spec_base() == 0xDEADBEEF,
        r.0@[TLS_IDX as int].spec_limit() == 28,
        forall|i: int| TLS_IDX < i < NUM_GDT_ENTRIES ==> #[trigger] r.0@[i].spec_is_null(),
{
    let mut gdt = GlobalDescriptorTable::new();
    let flat_flags = EntryFlags::ProtectedMode32Bit.value() | EntryFlags::PageGranularity.value();
    let a_code = AccessByte::Present.value() | AccessByte::NotTaskStateSegment.value()
        | AccessByte::Executable.value() | AccessByte::ReadableWritable.value();
    let a_data = AccessByte::Present.value() | AccessByte::NotTaskStateSegment.value()
        | AccessByte::ReadableWritable.value();
    let a_user_code = AccessByte::Present.value() | AccessByte::Usermode.value()
        | AccessByte::NotTaskStateSegment.value() | AccessByte::Executable.value()
        | AccessByte::ReadableWritable.value();
    let a_user_data = AccessByte::Present.value() | AccessByte::Usermode.value()
        | AccessByte::NotTaskStateSegment.value() | AccessByte::ReadableWritable.value();
    let a_tss = AccessByte::Present.value() | AccessByte::Executable.value()
        | AccessByte::Accessed.value();
    let a_tls = AccessByte::Present.value() | AccessByte::NotTaskStateSegment.value()
        | AccessByte::Usermode.value() | AccessByte::ReadableWritable.value();
    assert(flat_flags == 0xC0u8 && a_code == 0x9Au8 && a_data == 0x92u8 && a_user_code == 0xFAu8
        && a_user_data == 0xF2u8 && a_tss == 0x89u8 && a_tls == 0xF2u8 && 0xFFFFFu32 >> 20u32 == 0
        && 102u32 >> 20u32 == 0 && 28u32 >> 20u32 == 0 && 0xC0u8 & 0xFu8 == 0 && 0x80u8 & 0xFu8
        == 0 && 0x40u8 & 0xFu8 == 0 && 0xC0u8 | (((0xFFFFFu32 >> 16u32) as u8) & 0xFu8) == 0xCFu8)
        by (bit_vector)
        requires
            flat_flags == 0x40u8 | 0x80u8,
            a_code == 0x80u8 | 0x10u8 | 0x08u8 | 0x02u8,
            a_data == 0x80u8 | 0x10u8 | 0x02u8,
            a_user_code == 0x80u8 | 0x60u8 | 0x10u8 | 0x08u8 | 0x02u8,
            a_user_data == 0x80u8 | 0x60u8 | 0x10u8 | 0x02u8,
            a_tss == 0x80u8 | 0x08u8 | 0x01u8,
            a_tls == 0x80u8 | 0x10u8 | 0x60u8 | 0x02u8,
    ;
    let code = Entry::new(0x0000_0000, 0xFFFFF, a_code, flat_flags);
    let data = Entry::new(0x0000_0000, 0xFFFFF, a_data, flat_flags);
    let user_code = Entry::new(0x0000_0000, 0xFFFFF, a_user_code, flat_flags);
    let user_data = Entry::new(0x0000_0000, 0xFFFFF, a_user_data, flat_flags);
    let tss = Entry::new(tss_addr, TSS_SIZE as u32, a_tss, EntryFlags::PageGranularity.value());
    let tls = Entry::new(0xDEADBEEF, 7 * 4, a_tls, EntryFlags::ProtectedMode32Bit.value());
    gdt.0.set(KERNEL_CODE_IDX, code);
    gdt.0.set(KERNEL_DATA_IDX, data);
    gdt.0.set(USERMODE_CODE_IDX, user_code);
    gdt.0.set(USERMODE_DATA_IDX, user_data);
    gdt.0.set(TSS_IDX, tss);
    gdt.0.set(TLS_IDX, tls);
    gdt
}

} // verus!
