use vstd::prelude::*;

use crate::acpi::sdt::{rsdp_signature, OldRsdp, OLD_RSDP_SIZE};
use crate::bits::{byte_sum, read_u16_le, read_u32_le, read_u64_le, u16_at, u32_at, u64_at};
use crate::memory_region::Region;

verus! {

/// The boot information may hold at most this many tags, the end tag
/// included.
pub const MAX_TAGS: usize = 32;

/// At most this many available memory regions are recorded.
pub const MAX_AVAILABLE_REGIONS: usize = 32;

/// Size in bytes of a memory map entry: base address, length, type and a
/// reserved word.
pub const MEMORY_MAP_ENTRY_SIZE: usize = 24;

/// Memory map region type of memory that the kernel may use.
pub const REGION_AVAILABLE: u32 = 1;

/// Why the boot information cannot be used.
#[derive(Clone, Copy, Debug, PartialEq, Eq, Structural)]
pub enum ParseErr {
    /// No end tag among the first [`MAX_TAGS`] tags.
    TooManyTags,
    /// A tag does not start at an address aligned at 8 bytes.
    MisalignedTag,
    /// A tag declares a size smaller than its own header.
    TagTooSmall,
    /// A tag, or a field the kernel reads, lies past the given bytes.
    Truncated,
    /// A tag's size does not fit its layout: a string without room for its
    /// terminator, a memory map without entries or with entries of size
    /// zero, an old RSDP tag of the wrong size, or a memory map entry whose
    /// end does not fit in 64 bits.
    MalformedTag,
    /// A string of the boot information holds a byte that is not ASCII.
    NonAsciiString,
    /// The old RSDP has a wrong signature or checksum.
    InvalidRsdp,
    /// The declared total size differs from where the end tag ends.
    SizeMismatch,
}

/// Types of memory map regions; unknown codes read as `Reserved`.
#[derive(Clone, Copy, Debug, PartialEq, Eq, Structural)]
pub enum MemoryMapRegionType {
    Reserved,
    Available,
    AcpiInfo,
    Defective,
}

pub open spec fn spec_region_type(raw: u32) -> MemoryMapRegionType {
    if raw == 1 {
        MemoryMapRegionType::Available
    } else if raw == 3 {
        MemoryMapRegionType::AcpiInfo
    } else if raw == 5 {
        MemoryMapRegionType::Defective
    } else {
        MemoryMapRegionType::Reserved
    }
}

impl MemoryMapRegionType {
    pub fn from_raw(raw: u32) -> (r: MemoryMapRegionType)
        ensures
            r == spec_region_type(raw),
    {
        match raw {
            1 => MemoryMapRegionType::Available,
            3 => MemoryMapRegionType::AcpiInfo,
            5 => MemoryMapRegionType::Defective,
            _ => MemoryMapRegionType::Reserved,
        }
    }
}

/// Types of frame buffers; unknown codes read as `Reserved`.
#[derive(Clone, Copy, Debug, PartialEq, Eq, Structural)]
pub enum FramebufferType {
    Reserved,
    IndexedColor,
    RgbColor,
    EgaText,
}

pub open spec fn spec_framebuffer_type(raw: u8) -> FramebufferType {
    if raw == 0 {
        FramebufferType::IndexedColor
    } else if raw == 1 {
        FramebufferType::RgbColor
    } else if raw == 2 {
        FramebufferType::EgaText
    } else {
        FramebufferType::Reserved
    }
}

impl FramebufferType {
    pub fn from_raw(raw: u8) -> (r: FramebufferType)
        ensures
            r == spec_framebuffer_type(raw),
    {
        match raw {
            0 => FramebufferType::IndexedColor,
            1 => FramebufferType::RgbColor,
            2 => FramebufferType::EgaText,
            _ => FramebufferType::Reserved,
        }
    }
}

/// One entry of the memory map.
#[derive(Clone, Copy, Debug, PartialEq, Eq, Structural)]
pub struct MemoryMapEntry {
    pub base_addr: u64,
    pub length: u64,
    pub region_type: u32,
}

/// What a tag holds.  Strings are given by where they start in the boot
/// information and how many bytes they have, without the terminator.
#[derive(Clone, Copy, Debug)]
pub enum TagKind {
    CommandLine { at: usize, len: usize },
    BootloaderName { at: usize, len: usize },
    Module { mod_start: u32, mod_end: u32, name_at: usize, name_len: usize },
    BasicMemoryInfo { mem_lower: u32, mem_upper: u32 },
    BiosBootDevice { bios_dev: u32, partition: u32, subpartition: u32 },
    MemoryMap { entry_size: u32, entry_version: u32, num_entries: u32, entries_at: usize },
    VbeInfo { mode: u16, interface_seg: u16, interface_off: u16, interface_len: u16 },
    FramebufferInfo {
        addr: u64,
        pitch: u32,
        width: u32,
        height: u32,
        bpp: u8,
        fb_type: FramebufferType,
    },
    ElfSymbols { num: u16, entsize: u16, shndx: u16 },
    ApmTable { version: u16, cseg: u16, offset: u32, flags: u16, cseg_len: u16 },
    Efi32BitSystemTablePointer { pointer: u32 },
    Efi64BitSystemTablePointer { pointer: u64 },
    SmbiosTables { major_version: u8, minor_version: u8 },
    /// A valid ACPI 1.0 RSDP, laid out at `rsdp_at`.
    AcpiOldRsdp { rsdp_at: usize },
    AcpiNewRsdp,
    NetworkingInformation,
    EfiMemoryMap { descriptor_size: u32, descriptor_version: u32 },
    EfiBootServicesNotTerminated,
    Efi32BitImageHandlePointer { pointer: u32 },
    Efi64BitImageHandlePointer { pointer: u64 },
    ImageLoadBasePhysicalAddress { load_base_addr: u32 },
    Unknown,
}

/// A tag: its header and what it holds.
#[derive(Clone, Copy, Debug)]
pub struct TagInfo {
    pub tag_type: u32,
    pub tag_size: u32,
    /// Where the tag starts in the boot information.
    pub at: usize,
    pub kind: TagKind,
}

/// What the kernel learns from the boot information.
#[derive(Clone, Debug)]
pub struct BootInfo {
    pub total_size: u32,
    /// The tags before the end tag, in order.
    pub tags: Vec<TagInfo>,
    /// The available memory regions below 4 GiB, in the order of the memory
    /// map, at most [`MAX_AVAILABLE_REGIONS`] of them.
    pub available_memory_regions: Vec<Region>,
}

/// What a successful parse yields, as sequences.
pub struct ParsedView {
    pub total_size: u32,
    pub tags: Seq<TagInfo>,
    pub regions: Seq<Region>,
}

impl BootInfo {
    pub open spec fn view(&self) -> ParsedView {
        ParsedView {
            total_size: self.total_size,
            tags: self.tags@,
            regions: self.available_memory_regions@,
        }
    }
}

/// `x` rounded up to a multiple of 8.
pub open spec fn align8(x: int) -> int {
    (x + 7) / 8 * 8
}

/// The bytes the kernel reads of a tag of type `t`.
pub open spec fn tag_min_size(t: u32) -> int {
    if t == 3 || t == 4 || t == 6 || t == 7 || t == 12 || t == 17 || t == 20 {
        16
    } else if t == 5 {
        20
    } else if t == 8 {
        30
    } else if t == 9 {
        14
    } else if t == 10 {
        24
    } else if t == 11 || t == 19 || t == 21 {
        12
    } else if t == 13 {
        10
    } else if t == 14 {
        28
    } else {
        8
    }
}

/// All of `d[at..at + len]` is ASCII.
pub open spec fn ascii_run(d: Seq<u8>, at: int, len: int) -> bool {
    forall|k: int| at <= k < at + len ==> #[trigger] d[k] < 0x80
}

/// The memory map entry at `e`.
pub open spec fn spec_map_entry(d: Seq<u8>, e: int) -> MemoryMapEntry {
    MemoryMapEntry {
        base_addr: u64_at(d, e),
        length: u64_at(d, e + 8),
        region_type: u32_at(d, e + 16),
    }
}

/// Adds to `regions` the available regions below 4 GiB among entries
/// `i..num` of the memory map at `at`, while fewer than
/// [`MAX_AVAILABLE_REGIONS`] are recorded.
pub open spec fn spec_map_regions(
    d: Seq<u8>,
    at: int,
    es: int,
    num: int,
    i: int,
    regions: Seq<Region>,
) -> Result<Seq<Region>, ParseErr>
    decreases num - i,
{
    if i >= num {
        Ok(regions)
    } else {
        let e = at + i * es;
        if e + MEMORY_MAP_ENTRY_SIZE > d.len() {
            Err(ParseErr::Truncated)
        } else {
            let entry = spec_map_entry(d, e);
            let end = entry.base_addr + entry.length;
            if end > u64::MAX {
                Err(ParseErr::MalformedTag)
            } else if entry.base_addr >= 0x1_0000_0000 || end >= 0x1_0000_0000 {
                spec_map_regions(d, at, es, num, i + 1, regions)
            } else if entry.region_type == REGION_AVAILABLE && regions.len() < MAX_AVAILABLE_REGIONS {
                spec_map_regions(
                    d,
                    at,
                    es,
                    num,
                    i + 1,
                    regions.push(Region { start: entry.base_addr as usize, end: end as usize }),
                )
            } else {
                spec_map_regions(d, at, es, num, i + 1, regions)
            }
        }
    }
}

/// A string tag whose string starts `head` bytes into the tag.
pub open spec fn spec_string(d: Seq<u8>, o: int, s: int, head: int) -> Result<(int, int), ParseErr> {
    if s < head + 1 {
        Err(ParseErr::MalformedTag)
    } else if !ascii_run(d, o + head, s - head - 1) {
        Err(ParseErr::NonAsciiString)
    } else {
        Ok((o + head, s - head - 1))
    }
}

/// Region `r` is entry `k` of the memory map at `at` (entries `es` bytes
/// apart): the entry's type (the 32-bit value at its byte 16) is 1, its
/// base (the 64-bit value at byte 0) is where `r` starts, its length (the
/// 64-bit value at byte 8) is how long `r` is, and `r` ends below 4 GiB.
pub open spec fn region_of_entry(d: Seq<u8>, at: int, es: int, k: int, r: Region) -> bool {
    let e = at + k * es;
    &&& u32_at(d, e + 16) == 1
    &&& r.start == u64_at(d, e)
    &&& r.end == u64_at(d, e) + u64_at(d, e + 8)
    &&& r.end < 0x1_0000_0000
}

/// Which entry of the memory map the `j`-th region recorded (counting from
/// the regions recorded before entry `i`) came from.
pub open spec fn region_source(d: Seq<u8>, at: int, es: int, num: int, i: int, regions: Seq<Region>, j: int) -> int
    decreases num - i,
{
    if i >= num {
        i
    } else {
        let entry = spec_map_entry(d, at + i * es);
        let end = entry.base_addr + entry.length;
        if entry.region_type == REGION_AVAILABLE && regions.len() < MAX_AVAILABLE_REGIONS && !(entry.base_addr
            >= 0x1_0000_0000 || end >= 0x1_0000_0000) {
            if j == regions.len() {
                i
            } else {
                region_source(
                    d,
                    at,
                    es,
                    num,
                    i + 1,
                    regions.push(Region { start: entry.base_addr as usize, end: end as usize }),
                    j,
                )
            }
        } else {
            region_source(d, at, es, num, i + 1, regions, j)
        }
    }
}

/// The regions a memory map adds are its available entries below 4 GiB:
/// the regions recorded before stay as they were, and each one added is an
/// available entry from `i` on, as [`region_of_entry`] reads it.
pub proof fn lemma_map_regions_from_entries(
    d: Seq<u8>,
    at: int,
    es: int,
    num: int,
    i: int,
    regions: Seq<Region>,
)
    requires
        spec_map_regions(d, at, es, num, i, regions) is Ok,
    ensures
        ({
            let out = spec_map_regions(d, at, es, num, i, regions)->Ok_0;
            &&& regions.len() <= out.len()
            &&& out.subrange(0, regions.len() as int) == regions
            &&& forall|j: int|
                #![trigger region_source(d, at, es, num, i, regions, j)]
                regions.len() <= j < out.len() ==> (i <= region_source(d, at, es, num, i, regions, j)
                    && region_source(d, at, es, num, i, regions, j) < num && region_of_entry(
                    d,
                    at,
                    es,
                    region_source(d, at, es, num, i, regions, j),
                    out[j],
                ))
        }),
    decreases num - i,
{
    let out = spec_map_regions(d, at, es, num, i, regions)->Ok_0;
    if i < num {
        let e = at + i * es;
        let entry = spec_map_entry(d, e);
        let end = entry.base_addr + entry.length;
        if entry.region_type == REGION_AVAILABLE && regions.len() < MAX_AVAILABLE_REGIONS && !(entry.base_addr
            >= 0x1_0000_0000 || end >= 0x1_0000_0000) {
            let pushed = regions.push(Region { start: entry.base_addr as usize, end: end as usize });
            assert(spec_map_regions(d, at, es, num, i, regions) == spec_map_regions(d, at, es, num, i + 1, pushed));
            lemma_map_regions_from_entries(d, at, es, num, i + 1, pushed);
            let out2 = spec_map_regions(d, at, es, num, i + 1, pushed)->Ok_0;
            assert(out == out2);
            assert(out.subrange(0, regions.len() as int) =~= out2.subrange(0, pushed.len() as int).subrange(
                0,
                regions.len() as int,
            ));
            assert(pushed.subrange(0, regions.len() as int) =~= regions);
            assert(out[regions.len() as int] == pushed[regions.len() as int]);
            assert forall|j: int|
                #![trigger region_source(d, at, es, num, i, regions, j)]
                regions.len() <= j < out.len() implies (i <= region_source(d, at, es, num, i, regions, j)
                    && region_source(d, at, es, num, i, regions, j) < num && region_of_entry(
                    d,
                    at,
                    es,
                    region_source(d, at, es, num, i, regions, j),
                    out[j],
                )) by {
                if j != regions.len() {
                    assert(out2[j] == out[j]);
                    assert(region_source(d, at, es, num, i, regions, j) == region_source(d, at, es, num, i + 1, pushed, j));
                } else {
                    assert(region_source(d, at, es, num, i, regions, j) == i);
                    assert(region_of_entry(d, at, es, i, out[j]));
                }
            }
        } else {
            assert(spec_map_regions(d, at, es, num, i, regions) == spec_map_regions(d, at, es, num, i + 1, regions));
            lemma_map_regions_from_entries(d, at, es, num, i + 1, regions);
            let out2 = spec_map_regions(d, at, es, num, i + 1, regions)->Ok_0;
            assert(out == out2);
            assert forall|j: int|
                #![trigger region_source(d, at, es, num, i, regions, j)]
                regions.len() <= j < out.len() implies (i <= region_source(d, at, es, num, i, regions, j)
                    && region_source(d, at, es, num, i, regions, j) < num && region_of_entry(
                    d,
                    at,
                    es,
                    region_source(d, at, es, num, i, regions, j),
                    out[j],
                )) by {
                assert(out2[j] == out[j]);
                assert(region_source(d, at, es, num, i, regions, j) == region_source(d, at, es, num, i + 1, regions, j));
            }
        }
    } else {
        assert(out == regions);
        assert(out.subrange(0, regions.len() as int) =~= regions);
    }
}

/// The memory map region type codes: 1 available, 3 ACPI information, 5
/// defective memory; any other code reserved.
pub proof fn lemma_region_type_codes(raw: u32)
    ensures
        (spec_region_type(raw) == MemoryMapRegionType::Available) == (raw == 1),
        (spec_region_type(raw) == MemoryMapRegionType::AcpiInfo) == (raw == 3),
        (spec_region_type(raw) == MemoryMapRegionType::Defective) == (raw == 5),
        (spec_region_type(raw) == MemoryMapRegionType::Reserved) == (raw != 1 && raw != 3 && raw != 5),
{
}

/// What the tag of type `t` and size `s` at `o` holds, given the regions/// What the tag of type `t` and size `s` at `o` holds, given the regions
/// recorded so far; also the regions recorded after it.
#[verifier::opaque]
pub open spec fn spec_tag(d: Seq<u8>, o: int, t: u32, s: u32, regions: Seq<Region>) -> Result<
    (TagKind, Seq<Region>),
    ParseErr,
> {
    if o + s > d.len() || o + tag_min_size(t) > d.len() {
        Err(ParseErr::Truncated)
    } else if t == 1 || t == 2 {
        match spec_string(d, o, s as int, 8) {
            Err(e) => Err(e),
            Ok((at, len)) => Ok(
                (
                    if t == 1 {
                        TagKind::CommandLine { at: at as usize, len: len as usize }
                    } else {
                        TagKind::BootloaderName { at: at as usize, len: len as usize }
                    },
                    regions,
                ),
            ),
        }
    } else if t == 3 {
        match spec_string(d, o, s as int, 16) {
            Err(e) => Err(e),
            Ok((at, len)) => Ok(
                (
                    TagKind::Module {
                        mod_start: u32_at(d, o + 8),
                        mod_end: u32_at(d, o + 12),
                        name_at: at as usize,
                        name_len: len as usize,
                    },
                    regions,
                ),
            ),
        }
    } else if t == 6 {
        let es = u32_at(d, o + 8);
        if s < 16 || es == 0 {
            Err(ParseErr::MalformedTag)
        } else {
            let num = (s - 16) as int / es as int;
            match spec_map_regions(d, o + 16, es as int, num as int, 0, regions) {
                Err(e) => Err(e),
                Ok(r) => Ok(
                    (
                        TagKind::MemoryMap {
                            entry_size: es,
                            entry_version: u32_at(d, o + 12),
                            num_entries: num as u32,
                            entries_at: (o + 16) as usize,
                        },
                        r,
                    ),
                ),
            }
        }
    } else if t == 14 {
        if s != 28 {
            Err(ParseErr::MalformedTag)
        } else if !(d.subrange(o + 8, o + 16) == rsdp_signature() && byte_sum(
            d.subrange(o + 8, o + 28),
        ) % 256 == 0) {
            Err(ParseErr::InvalidRsdp)
        } else {
            Ok((TagKind::AcpiOldRsdp { rsdp_at: (o + 8) as usize }, regions))
        }
    } else {
        Ok((spec_plain_tag(d, o, t), regions))
    }
}

/// The Multiboot2 tag layouts: what a decoded tag holds is read from fixed
/// byte offsets after its 8-byte header, every value little-endian.  A
/// command line or boot loader name starts at byte 8 and a module's name
/// at byte 16, each running to the terminating zero that ends the tag; a
/// module's start address is at bytes 8..12 and its end at 12..16; a memory
/// map's entry size is at 8 and its version at 12, with entries from 16.
pub proof fn lemma_tag_layout(d: Seq<u8>, o: int, t: u32, s: u32, regions: Seq<Region>)
    requires
        spec_tag(d, o, t, s, regions) is Ok,
    ensures
        ({
            let k = spec_tag(d, o, t, s, regions)->Ok_0.0;
            &&& t == 1 ==> k == TagKind::CommandLine { at: (o + 8) as usize, len: (s - 9) as usize }
            &&& t == 2 ==> k == TagKind::BootloaderName { at: (o + 8) as usize, len: (s - 9) as usize }
            &&& t == 3 ==> k == TagKind::Module {
                mod_start: u32_at(d, o + 8),
                mod_end: u32_at(d, o + 12),
                name_at: (o + 16) as usize,
                name_len: (s - 17) as usize,
            }
            &&& t == 4 ==> k == TagKind::BasicMemoryInfo { mem_lower: u32_at(d, o + 8), mem_upper: u32_at(d, o + 12) }
            &&& t == 5 ==> k == TagKind::BiosBootDevice {
                bios_dev: u32_at(d, o + 8),
                partition: u32_at(d, o + 12),
                subpartition: u32_at(d, o + 16),
            }
            &&& t == 6 ==> (k matches TagKind::MemoryMap { entry_size, entry_version, num_entries, entries_at }
                && entry_size == u32_at(d, o + 8) && entry_version == u32_at(d, o + 12) && entries_at == (o + 16) as usize
                && num_entries == (s - 16) / (entry_size as int))
            &&& t == 7 ==> k == TagKind::VbeInfo {
                mode: u16_at(d, o + 8),
                interface_seg: u16_at(d, o + 10),
                interface_off: u16_at(d, o + 12),
                interface_len: u16_at(d, o + 14),
            }
            &&& t == 8 ==> (k matches TagKind::FramebufferInfo { addr, pitch, width, height, bpp, fb_type }
                && addr == u64_at(d, o + 8) && pitch == u32_at(d, o + 16) && width == u32_at(d, o + 20)
                && height == u32_at(d, o + 24) && bpp == d[o + 28]
                && (d[o + 29] == 0 ==> fb_type == FramebufferType::IndexedColor)
                && (d[o + 29] == 1 ==> fb_type == FramebufferType::RgbColor)
                && (d[o + 29] == 2 ==> fb_type == FramebufferType::EgaText)
                && (d[o + 29] > 2 ==> fb_type == FramebufferType::Reserved))
            &&& t == 9 ==> k == TagKind::ElfSymbols {
                num: u16_at(d, o + 8),
                entsize: u16_at(d, o + 10),
                shndx: u16_at(d, o + 12),
            }
            &&& t == 10 ==> k == TagKind::ApmTable {
                version: u16_at(d, o + 8),
                cseg: u16_at(d, o + 10),
                offset: u32_at(d, o + 12),
                flags: u16_at(d, o + 20),
                cseg_len: u16_at(d, o + 22),
            }
            &&& t == 11 ==> k == TagKind::Efi32BitSystemTablePointer { pointer: u32_at(d, o + 8) }
            &&& t == 12 ==> k == TagKind::Efi64BitSystemTablePointer { pointer: u64_at(d, o + 8) }
            &&& t == 13 ==> k == TagKind::SmbiosTables { major_version: d[o + 8], minor_version: d[o + 9] }
            &&& t == 14 ==> k == TagKind::AcpiOldRsdp { rsdp_at: (o + 8) as usize }
            &&& t == 15 ==> k == TagKind::AcpiNewRsdp
            &&& t == 16 ==> k == TagKind::NetworkingInformation
            &&& t == 17 ==> k == TagKind::EfiMemoryMap {
                descriptor_size: u32_at(d, o + 8),
                descriptor_version: u32_at(d, o + 12),
            }
            &&& t == 18 ==> k == TagKind::EfiBootServicesNotTerminated
            &&& t == 19 ==> k == TagKind::Efi32BitImageHandlePointer { pointer: u32_at(d, o + 8) }
            &&& t == 20 ==> k == TagKind::Efi64BitImageHandlePointer { pointer: u64_at(d, o + 8) }
            &&& t == 21 ==> k == TagKind::ImageLoadBasePhysicalAddress { load_base_addr: u32_at(d, o + 8) }
            &&& (t == 0 || t > 21) ==> k == TagKind::Unknown
        }),
{
    reveal(spec_tag);
    if t == 6 && spec_tag(d, o, t, s, regions) is Ok {
        let es = u32_at(d, o + 8);
        assert(es > 0);
        assert((s - 16) as int / es as int <= (s - 16) as int) by (nonlinear_arith)
            requires
                es > 0,
                s >= 16,
        ;
    }
}

/// What a tag of type `t` at `o` holds, for the types that have neither
/// strings nor memory maps nor an RSDP.
pub open spec fn spec_plain_tag(d: Seq<u8>, o: int, t: u32) -> TagKind {
    if t == 4 {
        TagKind::BasicMemoryInfo { mem_lower: u32_at(d, o + 8), mem_upper: u32_at(d, o + 12) }
    } else if t == 5 {
        TagKind::BiosBootDevice {
            bios_dev: u32_at(d, o + 8),
            partition: u32_at(d, o + 12),
            subpartition: u32_at(d, o + 16),
        }
    } else if t == 7 {
        TagKind::VbeInfo {
            mode: u16_at(d, o + 8),
            interface_seg: u16_at(d, o + 10),
            interface_off: u16_at(d, o + 12),
            interface_len: u16_at(d, o + 14),
        }
    } else if t == 8 {
        TagKind::FramebufferInfo {
            addr: u64_at(d, o + 8),
            pitch: u32_at(d, o + 16),
            width: u32_at(d, o + 20),
            height: u32_at(d, o + 24),
            bpp: d[o + 28],
            fb_type: spec_framebuffer_type(d[o + 29]),
        }
    } else if t == 9 {
        TagKind::ElfSymbols {
            num: u16_at(d, o + 8),
            entsize: u16_at(d, o + 10),
            shndx: u16_at(d, o + 12),
        }
    } else if t == 10 {
        TagKind::ApmTable {
            version: u16_at(d, o + 8),
            cseg: u16_at(d, o + 10),
            offset: u32_at(d, o + 12),
            flags: u16_at(d, o + 20),
            cseg_len: u16_at(d, o + 22),
        }
    } else if t == 11 {
        TagKind::Efi32BitSystemTablePointer { pointer: u32_at(d, o + 8) }
    } else if t == 12 {
        TagKind::Efi64BitSystemTablePointer { pointer: u64_at(d, o + 8) }
    } else if t == 13 {
        TagKind::SmbiosTables { major_version: d[o + 8], minor_version: d[o + 9] }
    } else if t == 15 {
        TagKind::AcpiNewRsdp
    } else if t == 16 {
        TagKind::NetworkingInformation
    } else if t == 17 {
        TagKind::EfiMemoryMap {
            descriptor_size: u32_at(d, o + 8),
            descriptor_version: u32_at(d, o + 12),
        }
    } else if t == 18 {
        TagKind::EfiBootServicesNotTerminated
    } else if t == 19 {
        TagKind::Efi32BitImageHandlePointer { pointer: u32_at(d, o + 8) }
    } else if t == 20 {
        TagKind::Efi64BitImageHandlePointer { pointer: u64_at(d, o + 8) }
    } else if t == 21 {
        TagKind::ImageLoadBasePhysicalAddress { load_base_addr: u32_at(d, o + 8) }
    } else {
        TagKind::Unknown
    }
}

/// The walk over the tags from the `n`-th one, at `o`, with the tags and
/// regions gathered so far.
pub open spec fn spec_walk(d: Seq<u8>, o: int, n: int, tags: Seq<TagInfo>, regions: Seq<Region>) -> Result<
    ParsedView,
    ParseErr,
>
    decreases MAX_TAGS - n,
{
    if n >= MAX_TAGS {
        Err(ParseErr::TooManyTags)
    } else if o + 8 > d.len() {
        Err(ParseErr::Truncated)
    } else {
        let t = u32_at(d, o);
        let s = u32_at(d, o + 4);
        if s < 8 {
            Err(ParseErr::TagTooSmall)
        } else if t == 0 && s == 8 {
            if u32_at(d, 0) != o + 8 {
                Err(ParseErr::SizeMismatch)
            } else {
                Ok(ParsedView { total_size: u32_at(d, 0), tags, regions })
            }
        } else {
            match spec_tag(d, o, t, s, regions) {
                Err(e) => Err(e),
                Ok((kind, r)) => spec_walk(
                    d,
                    align8(o + s),
                    n + 1,
                    tags.push(TagInfo { tag_type: t, tag_size: s, at: o as usize, kind }),
                    r,
                ),
            }
        }
    }
}

/// The verdict on the boot information `d` found at address `base`.
pub open spec fn spec_parse(d: Seq<u8>, base: int) -> Result<ParsedView, ParseErr> {
    if d.len() < 8 {
        Err(ParseErr::Truncated)
    } else if base % 8 != 0 {
        Err(ParseErr::MisalignedTag)
    } else {
        spec_walk(d, 8, 0, Seq::empty(), Seq::empty())
    }
}

/// Whether `b[at..at + len]` is all ASCII.
pub fn is_ascii_run(b: &[u8], at: usize, len: usize) -> (r: bool)
    requires
        at + len <= b@.len(),
    ensures
        r == ascii_run(b@, at as int, len as int),
{
    let n = b.len();
    let mut k: usize = 0;
    while k < len
        invariant
            k <= len,
            at + len <= b@.len(),
            n == b@.len(),
            forall|j: int| at <= j < at + k ==> #[trigger] b@[j] < 0x80,
        decreases len - k,
    {
        if b[at + k] & 0x80 != 0 {
            let x = b[at + k];
            assert(x & 0x80 != 0 ==> x >= 0x80) by (bit_vector);
            return false;
        }
        let x = b[at + k];
        assert(x & 0x80 == 0 ==> x < 0x80) by (bit_vector);
        k = k + 1;
    }
    true
}

/// Reads the memory map entry at `e`.
pub fn read_map_entry(b: &[u8], e: usize) -> (r: MemoryMapEntry)
    requires
        e + MEMORY_MAP_ENTRY_SIZE <= b@.len(),
    ensures
        r == spec_map_entry(b@, e as int),
{
    let _len = b.len();
    MemoryMapEntry {
        base_addr: read_u64_le(b, e),
        length: read_u64_le(b, e + 8),
        region_type: read_u32_le(b, e + 16),
    }
}

/// Records the available regions of the memory map with `num` entries of
/// size `es` at `at`.
fn add_map_regions(b: &[u8], at: usize, es: u32, num: u32, regions: &mut Vec<Region>) -> (r: Result<
    (),
    ParseErr,
>)
    requires
        es > 0,
        at + num * es <= b@.len(),
    ensures
        match spec_map_regions(b@, at as int, es as int, num as int, 0, old(regions)@) {
            Ok(rs) => r is Ok && final(regions)@ == rs,
            Err(e) => r == Err::<(), ParseErr>(e),
        },
{
    let ghost target = spec_map_regions(b@, at as int, es as int, num as int, 0, regions@);
    let n = b.len();
    let mut i: u32 = 0;
    while i < num
        invariant
            i <= num,
            n == b@.len(),
            es > 0,
            at + num * es <= b@.len(),
            target == spec_map_regions(b@, at as int, es as int, num as int, i as int, regions@),
            target == spec_map_regions(b@, at as int, es as int, num as int, 0, old(regions)@),
        decreases num - i,
    {
        assert(i * es + es <= num * es && i * es >= 0) by (nonlinear_arith)
            requires
                i < num,
                es > 0,
        ;
        let e: usize = at + (i as usize) * (es as usize);
        if b.len() - e < MEMORY_MAP_ENTRY_SIZE {
            return Err(ParseErr::Truncated);
        }
        let entry = read_map_entry(b, e);
        if entry.length > u64::MAX - entry.base_addr {
            return Err(ParseErr::MalformedTag);
        }
        let end = entry.base_addr + entry.length;
        if entry.base_addr >= 0x1_0000_0000u64 || end >= 0x1_0000_0000u64 {
        } else if entry.region_type == REGION_AVAILABLE && regions.len() < MAX_AVAILABLE_REGIONS {
            regions.push(Region { start: entry.base_addr as usize, end: end as usize });
        }
        i = i + 1;
    }
    Ok(())
}

/// The bytes the kernel reads of a tag of type `t`.
fn min_tag_size(t: u32) -> (r: usize)
    ensures
        r == tag_min_size(t),
{
    match t {
        3 | 4 | 6 | 7 | 12 | 17 | 20 => 16,
        5 => 20,
        8 => 30,
        9 => 14,
        10 => 24,
        11 | 19 | 21 => 12,
        13 => 10,
        14 => 28,
        _ => 8,
    }
}

/// Decodes a tag that holds neither strings nor a memory map nor an RSDP.
fn decode_plain_tag(b: &[u8], o: usize, t: u32) -> (r: TagKind)
    requires
        o + tag_min_size(t) <= b@.len(),
    ensures
        r == spec_plain_tag(b@, o as int, t),
{
    let _len = b.len();
    match t {
        4 => TagKind::BasicMemoryInfo {
            mem_lower: read_u32_le(b, o + 8),
            mem_upper: read_u32_le(b, o + 12),
        },
        5 => TagKind::BiosBootDevice {
            bios_dev: read_u32_le(b, o + 8),
            partition: read_u32_le(b, o + 12),
            subpartition: read_u32_le(b, o + 16),
        },
        7 => TagKind::VbeInfo {
            mode: read_u16_le(b, o + 8),
            interface_seg: read_u16_le(b, o + 10),
            interface_off: read_u16_le(b, o + 12),
            interface_len: read_u16_le(b, o + 14),
        },
        8 => TagKind::FramebufferInfo {
            addr: read_u64_le(b, o + 8),
            pitch: read_u32_le(b, o + 16),
            width: read_u32_le(b, o + 20),
            height: read_u32_le(b, o + 24),
            bpp: b[o + 28],
            fb_type: FramebufferType::from_raw(b[o + 29]),
        },
        9 => TagKind::ElfSymbols {
            num: read_u16_le(b, o + 8),
            entsize: read_u16_le(b, o + 10),
            shndx: read_u16_le(b, o + 12),
        },
        10 => TagKind::ApmTable {
            version: read_u16_le(b, o + 8),
            cseg: read_u16_le(b, o + 10),
            offset: read_u32_le(b, o + 12),
            flags: read_u16_le(b, o + 20),
            cseg_len: read_u16_le(b, o + 22),
        },
        11 => TagKind::Efi32BitSystemTablePointer { pointer: read_u32_le(b, o + 8) },
        12 => TagKind::Efi64BitSystemTablePointer { pointer: read_u64_le(b, o + 8) },
        13 => TagKind::SmbiosTables { major_version: b[o + 8], minor_version: b[o + 9] },
        15 => TagKind::AcpiNewRsdp,
        16 => TagKind::NetworkingInformation,
        17 => TagKind::EfiMemoryMap {
            descriptor_size: read_u32_le(b, o + 8),
            descriptor_version: read_u32_le(b, o + 12),
        },
        18 => TagKind::EfiBootServicesNotTerminated,
        19 => TagKind::Efi32BitImageHandlePointer { pointer: read_u32_le(b, o + 8) },
        20 => TagKind::Efi64BitImageHandlePointer { pointer: read_u64_le(b, o + 8) },
        21 => TagKind::ImageLoadBasePhysicalAddress { load_base_addr: read_u32_le(b, o + 8) },
        _ => TagKind::Unknown,
    }
}

/// Decodes the tag of type `t` and size `s` at `o`, recording the available
/// regions of a memory map.
fn decode_tag(b: &[u8], o: usize, t: u32, s: u32, regions: &mut Vec<Region>) -> (r: Result<
    TagKind,
    ParseErr,
>)
    requires
        o + 8 <= b@.len(),
        s >= 8,
    ensures
        match spec_tag(b@, o as int, t, s, old(regions)@) {
            Ok((k, rs)) => r == Ok::<TagKind, ParseErr>(k) && final(regions)@ == rs,
            Err(e) => r == Err::<TagKind, ParseErr>(e),
        },
        r is Ok ==> o + s <= b@.len(),
{
    reveal(spec_tag);
    let n = b.len();
    let need = min_tag_size(t);
    if s as usize > n - o || need > n - o {
        return Err(ParseErr::Truncated);
    }
    if t == 1 || t == 2 {
        if s < 9 {
            return Err(ParseErr::MalformedTag);
        }
        let at = o + 8;
        let len = (s - 9) as usize;
        if !is_ascii_run(b, at, len) {
            return Err(ParseErr::NonAsciiString);
        }
        if t == 1 {
            Ok(TagKind::CommandLine { at, len })
        } else {
            Ok(TagKind::BootloaderName { at, len })
        }
    } else if t == 3 {
        if s < 17 {
            return Err(ParseErr::MalformedTag);
        }
        let at = o + 16;
        let len = (s - 17) as usize;
        if !is_ascii_run(b, at, len) {
            return Err(ParseErr::NonAsciiString);
        }
        Ok(
            TagKind::Module {
                mod_start: read_u32_le(b, o + 8),
                mod_end: read_u32_le(b, o + 12),
                name_at: at,
                name_len: len,
            },
        )
    } else if t == 6 {
        let es = read_u32_le(b, o + 8);
        if s < 16 || es == 0 {
            return Err(ParseErr::MalformedTag);
        }
        let num = (s - 16) / es;
        assert(num * es <= s - 16) by (nonlinear_arith)
            requires
                es > 0,
                num == (s - 16) as int / es as int,
                s >= 16,
        ;
        match add_map_regions(b, o + 16, es, num, regions) {
            Err(e) => Err(e),
            Ok(()) => Ok(
                TagKind::MemoryMap {
                    entry_size: es,
                    entry_version: read_u32_le(b, o + 12),
                    num_entries: num,
                    entries_at: o + 16,
                },
            ),
        }
    } else if t == 14 {
        if s != 28 {
            return Err(ParseErr::MalformedTag);
        }
        let rsdp = OldRsdp::from_bytes(&b[o + 8..o + 28]);
        proof {
            let sub = b@.subrange(o + 8, o + 28);
            assert(sub.subrange(0, 20) =~= sub);
            assert(rsdp.raw().subrange(0, 8) =~= rsdp.signature@);
            assert(sub.subrange(0, 8) =~= b@.subrange(o + 8, o + 16));
        }
        if !rsdp.is_valid() {
            return Err(ParseErr::InvalidRsdp);
        }
        Ok(TagKind::AcpiOldRsdp { rsdp_at: o + 8 })
    } else {
        Ok(decode_plain_tag(b, o, t))
    }
}

/// `align8` rounds up to the next multiple of 8.
proof fn lemma_align8(x: int)
    requires
        x >= 0,
    ensures
        x % 8 == 0 ==> align8(x) == x,
        x % 8 != 0 ==> align8(x) == x + 8 - x % 8,
{
    assert(x % 8 == 0 ==> (x + 7) / 8 * 8 == x) by (nonlinear_arith);
    assert(x % 8 != 0 ==> (x + 7) / 8 * 8 == x + 8 - x % 8) by (nonlinear_arith);
}

/// Reads the multiboot2 boot information `data`, found at address `base`:
/// walks its tags up to the end tag, decodes each, records the available
/// memory regions below 4 GiB, checks the old RSDP if there is one, and
/// checks that the declared total size is where the end tag ends.
pub fn parse(data: &[u8], base: usize) -> (r: Result<BootInfo, ParseErr>)
    requires
        data@.len() <= u32::MAX,
    ensures
        match spec_parse(data@, base as int) {
            Ok(v) => r is Ok && r->Ok_0.total_size == v.total_size && r->Ok_0.tags@ == v.tags
                && r->Ok_0.available_memory_regions@ == v.regions,
            Err(e) => r == Err::<BootInfo, ParseErr>(e),
        },
{
    let n = data.len();
    if n < 8 {
        return Err(ParseErr::Truncated);
    }
    if base % 8 != 0 {
        return Err(ParseErr::MisalignedTag);
    }
    let total_size = read_u32_le(data, 0);
    let mut tags: Vec<TagInfo> = Vec::new();
    let mut regions: Vec<Region> = Vec::new();
    let mut o: usize = 8;
    let mut count: usize = 0;
    while count < MAX_TAGS
        invariant
            n == data@.len(),
            n <= u32::MAX,
            n >= 8,
            base % 8 == 0,
            o <= n,
            count <= MAX_TAGS,
            total_size == u32_at(data@, 0),
            spec_parse(data@, base as int) == spec_walk(data@, o as int, count as int, tags@, regions@),
        decreases MAX_TAGS - count,
    {
        if o > n - 8 {
            return Err(ParseErr::Truncated);
        }
        let t = read_u32_le(data, o);
        let s = read_u32_le(data, o + 4);
        if s < 8 {
            return Err(ParseErr::TagTooSmall);
        }
        if t == 0 && s == 8 {
            if total_size as usize != o + 8 {
                return Err(ParseErr::SizeMismatch);
            }
            return Ok(BootInfo { total_size, tags, available_memory_regions: regions });
        }
        let ghost tags0 = tags@;
        let ghost regions0 = regions@;
        let kind = match decode_tag(data, o, t, s, &mut regions) {
            Ok(k) => k,
            Err(e) => return Err(e),
        };
        tags.push(TagInfo { tag_type: t, tag_size: s, at: o, kind });
        let end = o + s as usize;
        let rem = end % 8;
        proof {
            lemma_align8(end as int);
            assert(spec_tag(data@, o as int, t, s, regions0) == Ok::<(TagKind, Seq<Region>), ParseErr>(
                (kind, regions@),
            ));
            assert(spec_walk(data@, o as int, count as int, tags0, regions0) == spec_walk(
                data@,
                align8(end as int),
                count + 1,
                tags@,
                regions@,
            ));
        }
        if rem != 0 && n - end < 8 - rem {
            assert(align8(end as int) + 8 > n);
            if count + 1 >= MAX_TAGS {
                return Err(ParseErr::TooManyTags);
            }
            return Err(ParseErr::Truncated);
        }
        o = if rem == 0 {
            end
        } else {
            end + (8 - rem)
        };
        count = count + 1;
    }
    Err(ParseErr::TooManyTags)
}

} // verus!
