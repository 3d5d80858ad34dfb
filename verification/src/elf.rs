use vstd::prelude::*;

use crate::bits::{read_u16_le, read_u32_le, u16_at, u32_at};

verus! {

/// The header of an ELF file, as far as this kernel reads it.
#[derive(Clone, Copy, Debug, PartialEq, Eq, Structural)]
pub struct ElfHeader {
    pub arch: u8,
    pub byte_order: u8,
    pub elf_version: u8,
    pub osabi: u8,
    pub abiversion: u8,
    pub elf_type: u16,
    pub machine: u16,
    pub version: u32,
    pub entry: u32,
    pub phoff: u32,
    pub shoff: u32,
    pub flags: u32,
    pub ehsize: u16,
    pub phentsize: u16,
    pub phnum: u16,
    pub shentsize: u16,
    pub shnum: u16,
    pub shstrndx: u16,
}

/// Why an ELF header is not one of an executable this kernel can run.
#[derive(Clone, Copy, Debug, PartialEq, Eq, Structural)]
pub enum ElfHeaderErr {
    NotElf,
    UnsupportedArch(u8),
    UnsupportedByteOrder(u8),
    UnsupportedElfVersion(u8),
    InvalidType(u16),
    UnsupportedMachine(u16),
}

pub const ELF_HEADER_SIZE: usize = 52;
pub const SECTION_HEADER_SIZE: usize = 40;
pub const PROG_HEADER_SIZE: usize = 32;

/// 32-bit objects.
pub const ARCH_BIT32: u8 = 1;
/// Little-endian objects.
pub const LITTLE_ENDIAN: u8 = 1;
pub const ELF_VERSION: u8 = 1;
/// Executable files.
pub const TYPE_EXECUTABLE_FILE: u16 = 2;
/// The x86 machine.
pub const MACHINE_X86: u16 = 3;
/// Loadable program segments.
pub const PROG_HEADER_LOAD: u32 = 1;

/// The header fields as laid out at the start of `d`.
pub open spec fn spec_header(d: Seq<u8>) -> ElfHeader {
    ElfHeader {
        arch: d[4],
        byte_order: d[5],
        elf_version: d[6],
        osabi: d[7],
        abiversion: d[8],
        elf_type: u16_at(d, 16),
        machine: u16_at(d, 18),
        version: u32_at(d, 20),
        entry: u32_at(d, 24),
        phoff: u32_at(d, 28),
        shoff: u32_at(d, 32),
        flags: u32_at(d, 36),
        ehsize: u16_at(d, 40),
        phentsize: u16_at(d, 42),
        phnum: u16_at(d, 44),
        shentsize: u16_at(d, 46),
        shnum: u16_at(d, 48),
        shstrndx: u16_at(d, 50),
    }
}

/// The verdict on a header: the first check that fails, in the order magic
/// number, class, byte order, version, type, machine.
pub open spec fn spec_check_header(d: Seq<u8>) -> Result<ElfHeader, ElfHeaderErr> {
    let h = spec_header(d);
    if d[0] != 0x7f || d[1] != 0x45 || d[2] != 0x4c || d[3] != 0x46 {
        Err(ElfHeaderErr::NotElf)
    } else if h.arch != ARCH_BIT32 {
        Err(ElfHeaderErr::UnsupportedArch(h.arch))
    } else if h.byte_order != LITTLE_ENDIAN {
        Err(ElfHeaderErr::UnsupportedByteOrder(h.byte_order))
    } else if h.elf_version != ELF_VERSION {
        Err(ElfHeaderErr::UnsupportedElfVersion(h.elf_version))
    } else if h.elf_type != TYPE_EXECUTABLE_FILE {
        Err(ElfHeaderErr::InvalidType(h.elf_type))
    } else if h.machine != MACHINE_X86 {
        Err(ElfHeaderErr::UnsupportedMachine(h.machine))
    } else {
        Ok(h)
    }
}

impl ElfHeader {
    /// Reads and checks the header at the start of `data`, which must be at
    /// least as long as a header.
    pub fn from_raw_data(data: &[u8]) -> (r: Result<ElfHeader, ElfHeaderErr>)
        requires
            data@.len() >= ELF_HEADER_SIZE,
        ensures
            r == spec_check_header(data@),
    {
        let header = ElfHeader {
            arch: data[4],
            byte_order: data[5],
            elf_version: data[6],
            osabi: data[7],
            abiversion: data[8],
            elf_type: read_u16_le(data, 16),
            machine: read_u16_le(data, 18),
            version: read_u32_le(data, 20),
            entry: read_u32_le(data, 24),
            phoff: read_u32_le(data, 28),
            shoff: read_u32_le(data, 32),
            flags: read_u32_le(data, 36),
            ehsize: read_u16_le(data, 40),
            phentsize: read_u16_le(data, 42),
            phnum: read_u16_le(data, 44),
            shentsize: read_u16_le(data, 46),
            shnum: read_u16_le(data, 48),
            shstrndx: read_u16_le(data, 50),
        };
        if data[0] != 0x7f || data[1] != 0x45 || data[2] != 0x4c || data[3] != 0x46 {
            return Err(ElfHeaderErr::NotElf);
        }
        if header.arch != ARCH_BIT32 {
            return Err(ElfHeaderErr::UnsupportedArch(header.arch));
        }
        if header.byte_order != LITTLE_ENDIAN {
            return Err(ElfHeaderErr::UnsupportedByteOrder(header.byte_order));
        }
        if header.elf_version != ELF_VERSION {
            return Err(ElfHeaderErr::UnsupportedElfVersion(header.elf_version));
        }
        if header.elf_type != TYPE_EXECUTABLE_FILE {
            return Err(ElfHeaderErr::InvalidType(header.elf_type));
        }
        if header.machine != MACHINE_X86 {
            return Err(ElfHeaderErr::UnsupportedMachine(header.machine));
        }
        Ok(header)
    }

    /// Where section header `section_num` starts.
    pub open spec fn spec_section_header_idx(&self, section_num: int) -> int {
        self.shoff + section_num * SECTION_HEADER_SIZE
    }

    /// Where program header `ph_num` starts.
    pub open spec fn spec_program_header_idx(&self, ph_num: int) -> int {
        self.phoff + ph_num * PROG_HEADER_SIZE
    }

    /// A header of a table with `n` entries lies before the table's end.
    pub proof fn lemma_entry_before_end(start: int, size: int, i: int, n: int)
        requires
            0 <= i < n,
            size >= 0,
        ensures
            start + i * size + size <= start + n * size,
    {
        assert(i * size + size <= n * size) by (nonlinear_arith)
            requires
                0 <= i < n,
                size >= 0,
        ;
    }

    pub fn section_header_idx(&self, section_num: usize) -> (r: usize)
        requires
            self.spec_section_header_idx(section_num as int) <= usize::MAX,
        ensures
            r == self.spec_section_header_idx(section_num as int),
    {
        self.shoff as usize + section_num * SECTION_HEADER_SIZE
    }

    pub fn program_header_idx(&self, ph_num: usize) -> (r: usize)
        requires
            self.spec_program_header_idx(ph_num as int) <= usize::MAX,
        ensures
            r == self.spec_program_header_idx(ph_num as int),
    {
        self.phoff as usize + ph_num * PROG_HEADER_SIZE
    }
}

/// A section of an ELF file: its name, where its contents are and how long
/// they are.
#[derive(Clone, Debug)]
pub struct SectionInfo {
    pub name: Option<Vec<u8>>,
    pub offset: usize,
    pub size: usize,
}

/// A loadable program segment: where it is in the file and where it goes in
/// memory.
#[derive(Clone, Copy, Debug, PartialEq, Eq, Structural)]
pub struct ProgInfo {
    pub in_file_at: usize,
    pub in_file_size: usize,
    pub in_mem_at: usize,
    pub in_mem_size: usize,
}

/// What an ELF executable tells the loader.
#[derive(Clone, Debug)]
pub struct ElfInfo {
    pub sections: Vec<SectionInfo>,
    pub program_headers: Vec<ProgInfo>,
    pub entry_point: usize,
}

/// Why an executable cannot be loaded.
#[derive(Clone, Copy, Debug, PartialEq, Eq, Structural)]
pub enum ElfInfoErr {
    ElfHeaderErr(ElfHeaderErr),
}

/// The index of the first zero byte at or after `from`.
pub open spec fn nul_after(d: Seq<u8>, from: int) -> int {
    choose|e: int| from <= e < d.len() && d[e] == 0 && forall|k: int| from <= k < e ==> d[k] != 0
}

/// There is a zero byte at or after `from`.
pub open spec fn has_nul_after(d: Seq<u8>, from: int) -> bool {
    exists|e: int| from <= e < d.len() && d[e] == 0
}

/// Where the name of section `i` starts, when it has one.
pub open spec fn spec_name_start(d: Seq<u8>, h: ElfHeader, i: int) -> int {
    let names = h.spec_section_header_idx(h.shstrndx as int);
    u32_at(d, names + 16) + u32_at(d, h.spec_section_header_idx(i))
}

/// Whether section `i` has a name.
pub open spec fn spec_has_name(d: Seq<u8>, h: ElfHeader, i: int) -> bool {
    h.shstrndx != 0 && u32_at(d, h.spec_section_header_idx(i)) != 0
}

/// The section headers, the name table and each name lie within `d`, and
/// each name ends with a zero byte.
pub open spec fn sections_readable(d: Seq<u8>, h: ElfHeader) -> bool {
    &&& h.spec_section_header_idx(h.shnum as int) <= d.len()
    &&& forall|i: int|
        0 <= i < h.shnum ==> #[trigger] spec_has_name(d, h, i) ==> {
            &&& h.spec_section_header_idx(h.shstrndx as int) + SECTION_HEADER_SIZE <= d.len()
            &&& spec_name_start(d, h, i) <= d.len()
            &&& has_nul_after(d, spec_name_start(d, h, i))
        }
}

/// The program headers lie within `d` and all describe loadable segments.
pub open spec fn programs_readable(d: Seq<u8>, h: ElfHeader) -> bool {
    &&& h.spec_program_header_idx(h.phnum as int) <= d.len()
    &&& forall|i: int|
        0 <= i < h.phnum ==> #[trigger] u32_at(d, h.spec_program_header_idx(i)) == PROG_HEADER_LOAD
}

/// Section `i` as described by its header and the name table.
pub open spec fn spec_section(d: Seq<u8>, h: ElfHeader, i: int) -> (Option<Seq<u8>>, usize, usize) {
    let sh = h.spec_section_header_idx(i);
    (
        if spec_has_name(d, h, i) {
            Some(d.subrange(spec_name_start(d, h, i), nul_after(d, spec_name_start(d, h, i))))
        } else {
            None
        },
        u32_at(d, sh + 16) as usize,
        u32_at(d, sh + 20) as usize,
    )
}

/// Program segment `i` as described by its header.
pub open spec fn spec_prog(d: Seq<u8>, h: ElfHeader, i: int) -> ProgInfo {
    let ph = h.spec_program_header_idx(i);
    ProgInfo {
        in_file_at: u32_at(d, ph + 4) as usize,
        in_file_size: u32_at(d, ph + 16) as usize,
        in_mem_at: u32_at(d, ph + 8) as usize,
        in_mem_size: u32_at(d, ph + 20) as usize,
    }
}

impl SectionInfo {
    pub open spec fn view(&self) -> (Option<Seq<u8>>, usize, usize) {
        (
            match self.name {
                Some(n) => Some(n@),
                None => None,
            },
            self.offset,
            self.size,
        )
    }

    /// Reads section `section_num` and its name.
    pub fn from_raw_data(data: &[u8], elf_header: &ElfHeader, section_num: usize) -> (r: SectionInfo)
        requires
            sections_readable(data@, *elf_header),
            section_num < elf_header.shnum,
        ensures
            r.view() == spec_section(data@, *elf_header, section_num as int),
    {
        let len = data.len();
        proof {
            ElfHeader::lemma_entry_before_end(
                elf_header.shoff as int,
                SECTION_HEADER_SIZE as int,
                section_num as int,
                elf_header.shnum as int,
            );
        }
        let sh_idx = elf_header.section_header_idx(section_num);
        let name_off = read_u32_le(data, sh_idx);
        let offset = read_u32_le(data, sh_idx + 16);
        let size = read_u32_le(data, sh_idx + 20);
        let name = if elf_header.shstrndx != 0 && name_off != 0 {
            proof {
                assert(spec_has_name(data@, *elf_header, section_num as int));
            }
            let names_idx = elf_header.section_header_idx(elf_header.shstrndx as usize);
            let names_start = read_u32_le(data, names_idx + 16) as usize;
            let name_start = names_start + name_off as usize;
            let end = find_nul(data, name_start);
            let mut name: Vec<u8> = Vec::new();
            let mut k = name_start;
            while k < end
                invariant
                    name_start <= k <= end <= data@.len(),
                    name@ == data@.subrange(name_start as int, k as int),
                decreases end - k,
            {
                name.push(data[k]);
                assert(data@.subrange(name_start as int, k as int + 1) =~= data@.subrange(
                    name_start as int,
                    k as int,
                ).push(data@[k as int]));
                k = k + 1;
            }
            Some(name)
        } else {
            None
        };
        SectionInfo { name, offset: offset as usize, size: size as usize }
    }
}

/// The index of the first zero byte at or after `from`; there must be one.
fn find_nul(data: &[u8], from: usize) -> (r: usize)
    requires
        from <= data@.len(),
        has_nul_after(data@, from as int),
    ensures
        r == nul_after(data@, from as int),
        from <= r < data@.len(),
{
    let mut i = from;
    while i < data.len()
        invariant
            from <= i <= data@.len(),
            has_nul_after(data@, from as int),
            forall|k: int| from <= k < i ==> data@[k] != 0,
        decreases data@.len() - i,
    {
        if data[i] == 0 {
            let ghost e = nul_after(data@, from as int);
            assert(from <= i < data@.len() && data@[i as int] == 0 && forall|k: int|
                from <= k < i ==> data@[k] != 0);
            assert(e == i) by {
                if e < i {
                    assert(data@[e] != 0);
                } else if e > i {
                    assert(data@[i as int] != 0);
                }
            }
            return i;
        }
        i = i + 1;
    }
    proof {
        let e = choose|e: int| from <= e < data@.len() && data@[e] == 0;
        assert(data@[e] != 0);
    }
    i
}

impl ProgInfo {
    /// Reads program header `ph_idx`, which must describe a loadable
    /// segment.
    pub fn from_raw_data(data: &[u8], elf_header: &ElfHeader, ph_idx: usize) -> (r: ProgInfo)
        requires
            programs_readable(data@, *elf_header),
            ph_idx < elf_header.phnum,
        ensures
            r == spec_prog(data@, *elf_header, ph_idx as int),
    {
        let len = data.len();
        proof {
            ElfHeader::lemma_entry_before_end(
                elf_header.phoff as int,
                PROG_HEADER_SIZE as int,
                ph_idx as int,
                elf_header.phnum as int,
            );
        }
        let idx = elf_header.program_header_idx(ph_idx);
        ProgInfo {
            in_file_at: read_u32_le(data, idx + 4) as usize,
            in_file_size: read_u32_le(data, idx + 16) as usize,
            in_mem_at: read_u32_le(data, idx + 8) as usize,
            in_mem_size: read_u32_le(data, idx + 20) as usize,
        }
    }
}

impl ElfInfo {
    /// Reads an executable: its sections, its loadable segments and its
    /// entry point.  Fails exactly when the header does not describe an
    /// executable that this kernel can run.
    pub fn from_raw_data(data: &[u8]) -> (r: Result<ElfInfo, ElfInfoErr>)
        requires
            data@.len() >= ELF_HEADER_SIZE,
            spec_check_header(data@) is Ok ==> sections_readable(data@, spec_header(data@))
                && programs_readable(data@, spec_header(data@)),
        ensures
            match spec_check_header(data@) {
                Err(e) => r == Err::<ElfInfo, ElfInfoErr>(ElfInfoErr::ElfHeaderErr(e)),
                Ok(h) => r is Ok && ({
                    let info = r->Ok_0;
                    &&& info.entry_point == h.entry as usize
                    &&& info.sections@.len() == h.shnum
                    &&& forall|i: int|
                        0 <= i < h.shnum ==> #[trigger] info.sections@[i].view() == spec_section(
                            data@,
                            h,
                            i,
                        )
                    &&& info.program_headers@.len() == h.phnum
                    &&& forall|i: int|
                        0 <= i < h.phnum ==> #[trigger] info.program_headers@[i] == spec_prog(
                            data@,
                            h,
                            i,
                        )
                }),
            },
    {
        let elf_header = match ElfHeader::from_raw_data(data) {
            Ok(h) => h,
            Err(e) => return Err(ElfInfoErr::ElfHeaderErr(e)),
        };
        let mut sections: Vec<SectionInfo> = Vec::new();
        let mut i: usize = 0;
        while i < elf_header.shnum as usize
            invariant
                i <= elf_header.shnum,
                sections_readable(data@, elf_header),
                sections@.len() == i,
                forall|k: int| 0 <= k < i ==> #[trigger] sections@[k].view() == spec_section(
                    data@,
                    elf_header,
                    k,
                ),
            decreases elf_header.shnum - i,
        {
            sections.push(SectionInfo::from_raw_data(data, &elf_header, i));
            i = i + 1;
        }
        let mut program_headers: Vec<ProgInfo> = Vec::new();
        let mut j: usize = 0;
        while j < elf_header.phnum as usize
            invariant
                j <= elf_header.phnum,
                programs_readable(data@, elf_header),
                program_headers@.len() == j,
                forall|k: int| 0 <= k < j ==> #[trigger] program_headers@[k] == spec_prog(
                    data@,
                    elf_header,
                    k,
                ),
            decreases elf_header.phnum - j,
        {
            program_headers.push(ProgInfo::from_raw_data(data, &elf_header, j));
            j = j + 1;
        }
        Ok(ElfInfo { sections, program_headers, entry_point: elf_header.entry as usize })
    }
}

/// Whether some byte from `from` on is zero.
fn has_nul_from(data: &[u8], from: usize) -> (r: bool)
    requires
        from <= data@.len(),
    ensures
        r == has_nul_after(data@, from as int),
{
    let n = data.len();
    let mut i = from;
    while i < n
        invariant
            n == data@.len(),
            from <= i <= n,
            forall|k: int| from <= k < i ==> data@[k] != 0,
        decreases n - i,
    {
        if data[i] == 0 {
            return true;
        }
        i = i + 1;
    }
    false
}

/// Whether the section headers, the name table and every name lie within
/// `data`, each name ending with a zero byte: what reading the sections
/// needs.
pub fn check_sections_readable(data: &[u8], h: &ElfHeader) -> (r: bool)
    ensures
        r == sections_readable(data@, *h),
{
    let len = data.len();
    let table_end: u64 = h.shoff as u64 + h.shnum as u64 * 40;
    if table_end > len as u64 {
        return false;
    }
    let mut i: u16 = 0;
    while i < h.shnum
        invariant
            len == data@.len(),
            h.spec_section_header_idx(h.shnum as int) <= len,
            i <= h.shnum,
            forall|k: int|
                0 <= k < i ==> #[trigger] spec_has_name(data@, *h, k) ==> {
                    &&& h.spec_section_header_idx(h.shstrndx as int) + SECTION_HEADER_SIZE <= data@.len()
                    &&& spec_name_start(data@, *h, k) <= data@.len()
                    &&& has_nul_after(data@, spec_name_start(data@, *h, k))
                },
        decreases h.shnum - i,
    {
        proof {
            ElfHeader::lemma_entry_before_end(h.shoff as int, SECTION_HEADER_SIZE as int, i as int, h.shnum as int);
        }
        let sh = h.shoff as usize + i as usize * 40;
        let name_off = read_u32_le(data, sh);
        if h.shstrndx != 0 && name_off != 0 {
            assert(spec_has_name(data@, *h, i as int));
            let names: u64 = h.shoff as u64 + h.shstrndx as u64 * 40;
            if names + 40 > len as u64 {
                return false;
            }
            let names_start = read_u32_le(data, names as usize + 16);
            let name_start: u64 = names_start as u64 + name_off as u64;
            if name_start > len as u64 {
                return false;
            }
            if !has_nul_from(data, name_start as usize) {
                return false;
            }
        }
        i = i + 1;
    }
    true
}

/// Whether the program headers lie within `data` and all describe loadable
/// segments: what reading the program segments needs.
pub fn check_programs_readable(data: &[u8], h: &ElfHeader) -> (r: bool)
    ensures
        r == programs_readable(data@, *h),
{
    let len = data.len();
    let table_end: u64 = h.phoff as u64 + h.phnum as u64 * 32;
    if table_end > len as u64 {
        return false;
    }
    let mut i: u16 = 0;
    while i < h.phnum
        invariant
            len == data@.len(),
            h.spec_program_header_idx(h.phnum as int) <= len,
            i <= h.phnum,
            forall|k: int| 0 <= k < i ==> #[trigger] u32_at(data@, h.spec_program_header_idx(k)) == PROG_HEADER_LOAD,
        decreases h.phnum - i,
    {
        proof {
            ElfHeader::lemma_entry_before_end(h.phoff as int, PROG_HEADER_SIZE as int, i as int, h.phnum as int);
        }
        let ph = h.phoff as usize + i as usize * 32;
        if read_u32_le(data, ph) != PROG_HEADER_LOAD {
            assert(u32_at(data@, h.spec_program_header_idx(i as int)) != PROG_HEADER_LOAD);
            return false;
        }
        i = i + 1;
    }
    true
}

} // verus!
