use lib::elf::{check_programs_readable, check_sections_readable, ElfHeader, ElfHeaderErr, ElfInfo, ElfInfoErr};

fn put_u16(b: &mut [u8], at: usize, x: u16) {
    b[at..at + 2].copy_from_slice(&x.to_le_bytes());
}

fn put_u32(b: &mut [u8], at: usize, x: u32) {
    b[at..at + 4].copy_from_slice(&x.to_le_bytes());
}

/// An executable with one loadable segment and three sections, the last
/// one holding the section names.
fn sample() -> Vec<u8> {
    let mut b = vec![0u8; 512];
    b[0..4].copy_from_slice(&[0x7f, 0x45, 0x4c, 0x46]);
    b[4] = 1;
    b[5] = 1;
    b[6] = 1;
    put_u16(&mut b, 16, 2);
    put_u16(&mut b, 18, 3);
    put_u32(&mut b, 20, 1);
    put_u32(&mut b, 24, 0x0804_8000);
    put_u32(&mut b, 28, 52); // phoff
    put_u32(&mut b, 32, 100); // shoff
    put_u16(&mut b, 44, 1); // phnum
    put_u16(&mut b, 48, 3); // shnum
    put_u16(&mut b, 50, 2); // shstrndx
    // Program header: load 0x200 bytes at file offset 0x100 to 0x08048000.
    put_u32(&mut b, 52, 1);
    put_u32(&mut b, 56, 0x100);
    put_u32(&mut b, 60, 0x0804_8000);
    put_u32(&mut b, 68, 0x200);
    put_u32(&mut b, 72, 0x300);
    // Section 0: the null section.
    // Section 1: ".text", name at 1 in the name table.
    put_u32(&mut b, 140, 1);
    put_u32(&mut b, 140 + 16, 0x100);
    put_u32(&mut b, 140 + 20, 0x200);
    // Section 2: the name table at 400.
    put_u32(&mut b, 180, 7);
    put_u32(&mut b, 180 + 16, 400);
    put_u32(&mut b, 180 + 20, 20);
    b[400..417].copy_from_slice(b"\0.text\0.shstrtab\0");
    b
}

#[test]
fn reads_an_executable() {
    let b = sample();
    let info = ElfInfo::from_raw_data(&b).unwrap();
    assert_eq!(info.entry_point, 0x0804_8000);
    assert_eq!(info.program_headers.len(), 1);
    let p = &info.program_headers[0];
    assert_eq!((p.in_file_at, p.in_file_size, p.in_mem_at, p.in_mem_size), (0x100, 0x200, 0x0804_8000, 0x300));
    assert_eq!(info.sections.len(), 3);
    assert_eq!(info.sections[0].name, None);
    assert_eq!(info.sections[1].name.as_deref(), Some(&b".text"[..]));
    assert_eq!(info.sections[1].offset, 0x100);
    assert_eq!(info.sections[1].size, 0x200);
    assert_eq!(info.sections[2].name.as_deref(), Some(&b".shstrtab"[..]));
}

#[test]
fn header_errors_in_order() {
    let mut b = sample();
    b[1] = 0;
    assert_eq!(ElfHeader::from_raw_data(&b).err(), Some(ElfHeaderErr::NotElf));
    let mut b = sample();
    b[4] = 2;
    assert_eq!(ElfHeader::from_raw_data(&b).err(), Some(ElfHeaderErr::UnsupportedArch(2)));
    let mut b = sample();
    b[5] = 2;
    assert_eq!(ElfHeader::from_raw_data(&b).err(), Some(ElfHeaderErr::UnsupportedByteOrder(2)));
    let mut b = sample();
    b[6] = 0;
    assert_eq!(ElfHeader::from_raw_data(&b).err(), Some(ElfHeaderErr::UnsupportedElfVersion(0)));
    let mut b = sample();
    put_u16(&mut b, 16, 1);
    assert_eq!(ElfHeader::from_raw_data(&b).err(), Some(ElfHeaderErr::InvalidType(1)));
    let mut b = sample();
    put_u16(&mut b, 18, 62);
    assert_eq!(ElfHeader::from_raw_data(&b).err(), Some(ElfHeaderErr::UnsupportedMachine(62)));
    // The first failing check wins.
    let mut b = sample();
    b[4] = 2;
    put_u16(&mut b, 18, 62);
    assert_eq!(ElfHeader::from_raw_data(&b).err(), Some(ElfHeaderErr::UnsupportedArch(2)));
    assert_eq!(
        ElfInfo::from_raw_data(&b).err(),
        Some(ElfInfoErr::ElfHeaderErr(ElfHeaderErr::UnsupportedArch(2)))
    );
}

#[test]
fn header_indices() {
    let h = ElfHeader::from_raw_data(&sample()).unwrap();
    assert_eq!(h.section_header_idx(2), 100 + 80);
    assert_eq!(h.program_header_idx(1), 52 + 32);
}

#[test]
fn headers_and_names_must_lie_within_the_file() {
    let b = sample();
    let h = ElfHeader::from_raw_data(&b).unwrap();
    assert!(check_sections_readable(&b, &h));
    assert!(check_programs_readable(&b, &h));
    // The name table's names run to the end without a zero byte.
    let mut c = sample();
    c.truncate(410);
    assert!(!check_sections_readable(&c, &h));
    // The section headers end past the file.
    let mut d = sample();
    d.truncate(200);
    assert!(!check_sections_readable(&d, &h));
    assert!(check_programs_readable(&d, &h));
    // A segment that is not loadable.
    let mut e = sample();
    put_u32(&mut e, 52, 4);
    assert!(!check_programs_readable(&e, &h));
}
