use lib::multiboot::{
    parse, FramebufferType, MemoryMapRegionType, ParseErr, TagKind, MAX_AVAILABLE_REGIONS,
};

fn put_u32(b: &mut Vec<u8>, x: u32) {
    b.extend_from_slice(&x.to_le_bytes());
}

fn put_u64(b: &mut Vec<u8>, x: u64) {
    b.extend_from_slice(&x.to_le_bytes());
}

fn pad8(b: &mut Vec<u8>) {
    while b.len() % 8 != 0 {
        b.push(0);
    }
}

fn finish(mut b: Vec<u8>) -> Vec<u8> {
    put_u32(&mut b, 0);
    put_u32(&mut b, 8);
    let total = b.len() as u32;
    b[0..4].copy_from_slice(&total.to_le_bytes());
    b
}

fn header() -> Vec<u8> {
    let mut b = Vec::new();
    put_u32(&mut b, 0);
    put_u32(&mut b, 0);
    b
}

fn memory_map(b: &mut Vec<u8>, entries: &[(u64, u64, u32)]) {
    put_u32(b, 6);
    put_u32(b, 16 + 24 * entries.len() as u32);
    put_u32(b, 24);
    put_u32(b, 0);
    for &(base, len, ty) in entries {
        put_u64(b, base);
        put_u64(b, len);
        put_u32(b, ty);
        put_u32(b, 0);
    }
    pad8(b);
}

#[test]
fn parses_tags_and_available_regions() {
    let mut b = header();
    // Boot command line "abc".
    put_u32(&mut b, 1);
    put_u32(&mut b, 12);
    b.extend_from_slice(b"abc\0");
    pad8(&mut b);
    // Basic memory information.
    put_u32(&mut b, 4);
    put_u32(&mut b, 16);
    put_u32(&mut b, 639);
    put_u32(&mut b, 129920);
    memory_map(
        &mut b,
        &[
            (0, 0x9FC00, 1),
            (0x9FC00, 0x400, 2),
            (0x10_0000, 0x7EE_0000, 1),
            (0x1_0000_0000, 0x1000, 1),
            (0xFFFF_F000, 0x2000, 1),
        ],
    );
    let b = finish(b);
    let info = parse(&b, 0x10000).unwrap_or_else(|e| panic!("{:?}", e));
    assert_eq!(info.total_size as usize, b.len());
    assert_eq!(info.tags.len(), 3);
    match info.tags[0].kind {
        TagKind::CommandLine { at, len } => assert_eq!(&b[at..at + len], b"abc"),
        _ => panic!("not a command line"),
    }
    match info.tags[1].kind {
        TagKind::BasicMemoryInfo { mem_lower, mem_upper } => {
            assert_eq!(mem_lower, 639);
            assert_eq!(mem_upper, 129920);
        }
        _ => panic!("not basic memory information"),
    }
    match info.tags[2].kind {
        TagKind::MemoryMap { entry_size, num_entries, .. } => {
            assert_eq!(entry_size, 24);
            assert_eq!(num_entries, 5);
        }
        _ => panic!("not a memory map"),
    }
    // Only the available regions below 4 GiB are kept, in order.
    assert_eq!(info.available_memory_regions.len(), 2);
    assert_eq!(info.available_memory_regions[0].start, 0);
    assert_eq!(info.available_memory_regions[0].end, 0x9FC00);
    assert_eq!(info.available_memory_regions[1].start, 0x10_0000);
    assert_eq!(info.available_memory_regions[1].end, 0x7FE_0000);
}

#[test]
fn keeps_at_most_32_regions() {
    let mut b = header();
    let entries: Vec<(u64, u64, u32)> = (0..40u64).map(|i| (i * 0x1000, 0x800, 1)).collect();
    memory_map(&mut b, &entries);
    let b = finish(b);
    let info = parse(&b, 0).unwrap();
    assert_eq!(info.available_memory_regions.len(), MAX_AVAILABLE_REGIONS);
    assert_eq!(info.available_memory_regions[31].start, 31 * 0x1000);
}

#[test]
fn rejects_misaligned_boot_info() {
    let b = finish(header());
    assert_eq!(parse(&b, 4).err(), Some(ParseErr::MisalignedTag));
    assert!(parse(&b, 8).is_ok());
}

#[test]
fn rejects_size_mismatch() {
    let mut b = finish(header());
    b[0] = 100;
    assert_eq!(parse(&b, 0).err(), Some(ParseErr::SizeMismatch));
}

#[test]
fn rejects_small_tag() {
    let mut b = header();
    put_u32(&mut b, 4);
    put_u32(&mut b, 4);
    let b = finish(b);
    assert_eq!(parse(&b, 0).err(), Some(ParseErr::TagTooSmall));
}

#[test]
fn rejects_non_ascii_string() {
    let mut b = header();
    put_u32(&mut b, 2);
    put_u32(&mut b, 12);
    b.extend_from_slice(&[0x41, 0xC3, 0xA9, 0]);
    pad8(&mut b);
    let b = finish(b);
    assert_eq!(parse(&b, 0).err(), Some(ParseErr::NonAsciiString));
}

#[test]
fn rejects_too_many_tags() {
    let mut b = header();
    for _ in 0..32 {
        put_u32(&mut b, 15);
        put_u32(&mut b, 8);
    }
    let b = finish(b);
    assert_eq!(parse(&b, 0).err(), Some(ParseErr::TooManyTags));
    let mut ok = header();
    for _ in 0..31 {
        put_u32(&mut ok, 15);
        put_u32(&mut ok, 8);
    }
    let ok = finish(ok);
    assert_eq!(parse(&ok, 0).unwrap().tags.len(), 31);
}

#[test]
fn rejects_truncated_data() {
    let b = vec![16u8, 0, 0, 0, 0, 0, 0, 0];
    assert_eq!(parse(&b, 0).err(), Some(ParseErr::Truncated));
    assert_eq!(parse(&b[..4], 0).err(), Some(ParseErr::Truncated));
}

#[test]
fn rejects_empty_memory_map_entries() {
    let mut b = header();
    put_u32(&mut b, 6);
    put_u32(&mut b, 16);
    put_u32(&mut b, 0);
    put_u32(&mut b, 0);
    let b = finish(b);
    assert_eq!(parse(&b, 0).err(), Some(ParseErr::MalformedTag));
}

fn rsdp_bytes(valid: bool) -> Vec<u8> {
    let mut r = b"RSD PTR ".to_vec();
    r.push(0); // checksum, fixed below
    r.extend_from_slice(b"OEMID ");
    r.push(0);
    r.extend_from_slice(&0x000E_0000u32.to_le_bytes());
    let sum: u32 = r.iter().map(|&x| x as u32).sum();
    r[8] = ((256 - (sum % 256)) % 256) as u8;
    if !valid {
        r[8] = r[8].wrapping_add(1);
    }
    r
}

#[test]
fn checks_old_rsdp() {
    for valid in [true, false] {
        let mut b = header();
        put_u32(&mut b, 14);
        put_u32(&mut b, 28);
        b.extend_from_slice(&rsdp_bytes(valid));
        pad8(&mut b);
        let b = finish(b);
        let r = parse(&b, 0);
        if valid {
            match r.unwrap().tags[0].kind {
                TagKind::AcpiOldRsdp { rsdp_at } => assert_eq!(rsdp_at, 16),
                _ => panic!("not an RSDP"),
            }
        } else {
            assert_eq!(r.err(), Some(ParseErr::InvalidRsdp));
        }
    }
}

#[test]
fn decodes_framebuffer_tag() {
    let mut b = header();
    put_u32(&mut b, 8);
    put_u32(&mut b, 32);
    put_u64(&mut b, 0xFD00_0000);
    put_u32(&mut b, 4096);
    put_u32(&mut b, 1024);
    put_u32(&mut b, 768);
    b.push(32);
    b.push(1);
    b.push(0);
    b.push(0);
    pad8(&mut b);
    let b = finish(b);
    match parse(&b, 0).unwrap().tags[0].kind {
        TagKind::FramebufferInfo { addr, pitch, width, height, bpp, fb_type } => {
            assert_eq!(addr, 0xFD00_0000);
            assert_eq!((pitch, width, height, bpp), (4096, 1024, 768, 32));
            assert_eq!(fb_type, FramebufferType::RgbColor);
        }
        _ => panic!("not a frame buffer"),
    }
}

#[test]
fn region_and_framebuffer_types() {
    assert_eq!(MemoryMapRegionType::from_raw(1), MemoryMapRegionType::Available);
    assert_eq!(MemoryMapRegionType::from_raw(3), MemoryMapRegionType::AcpiInfo);
    assert_eq!(MemoryMapRegionType::from_raw(5), MemoryMapRegionType::Defective);
    assert_eq!(MemoryMapRegionType::from_raw(2), MemoryMapRegionType::Reserved);
    assert_eq!(FramebufferType::from_raw(2), FramebufferType::EgaText);
    assert_eq!(FramebufferType::from_raw(7), FramebufferType::Reserved);
}
