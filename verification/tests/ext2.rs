use lib::fs::ext2::{
    block_size_of, dir_entries, dir_listing, dir_name, entry_content, num_block_entries, num_block_groups, read_block_entry, DirEntryType,
    Ext2, FromRawErr, Inode, InodeBlock, InodeType, IndirectCounts, ReadBlockErr,
};
use lib::fs::{DirEntryContent, ReadDirErr};

fn put_u16(b: &mut [u8], at: usize, x: u16) {
    b[at..at + 2].copy_from_slice(&x.to_le_bytes());
}

fn put_u32(b: &mut [u8], at: usize, x: u32) {
    b[at..at + 4].copy_from_slice(&x.to_le_bytes());
}

fn superblock(major: u32, required: u32, read_only: u32) -> Vec<u8> {
    let mut sb = vec![0u8; 1024];
    put_u32(&mut sb, 4, 8192); // blocks
    put_u32(&mut sb, 24, 0); // 1 KiB blocks
    put_u32(&mut sb, 32, 8192); // blocks per group
    put_u32(&mut sb, 40, 2048); // inodes per group
    put_u16(&mut sb, 56, 0xEF53);
    put_u16(&mut sb, 62, 0);
    put_u32(&mut sb, 76, major);
    put_u16(&mut sb, 88, 256);
    put_u32(&mut sb, 92, 0x38);
    put_u32(&mut sb, 96, required);
    put_u32(&mut sb, 100, read_only);
    sb
}

fn bgd_table(groups: usize) -> Vec<u8> {
    let mut t = vec![0u8; 32 * groups];
    for g in 0..groups {
        put_u32(&mut t, 32 * g, 3 + g as u32);
        put_u32(&mut t, 32 * g + 4, 4 + g as u32);
        put_u32(&mut t, 32 * g + 8, 5 + 100 * g as u32);
        put_u16(&mut t, 32 * g + 16, 2);
    }
    t
}

#[test]
fn reads_superblock_and_descriptors() {
    let fs = Ext2::from_raw(&superblock(1, 0x02, 0x02), &bgd_table(2)).unwrap_or_else(|_| panic!());
    assert_eq!(fs.version, (1, 0));
    assert_eq!(fs.block_size, 1024);
    assert_eq!(fs.inode_size, 256);
    assert_eq!(fs.total_num_blocks, 8192);
    assert!(!fs.read_only);
    // One more group than whole groups of blocks.
    assert_eq!(fs.bgd_table.len(), 2);
    assert_eq!(fs.bgd_table[1].inode_table_start_block_addr, 105);
    assert_eq!(fs.bgd_table[0].num_dirs, 2);
}

#[test]
fn revision_zero_has_no_features() {
    let fs = Ext2::from_raw(&superblock(0, 0xFF, 0xFF), &bgd_table(2)).unwrap_or_else(|_| panic!());
    assert_eq!(fs.inode_size, 128);
    assert_eq!(fs.required_features, 0);
    assert_eq!(fs.optional_features, 0);
    assert!(!fs.read_only);
}

#[test]
fn refuses_unsupported_required_features() {
    match Ext2::from_raw(&superblock(1, 0x02 | 0x04 | 0x01, 0), &bgd_table(2)) {
        Err(FromRawErr::NoRequiredFeatures(absent)) => assert_eq!(absent, 0x05),
        Ok(_) => panic!("accepted"),
    }
}

#[test]
fn unsupported_read_only_features_make_it_read_only() {
    let fs = Ext2::from_raw(&superblock(1, 0, 0x02 | 0x04), &bgd_table(2)).unwrap_or_else(|_| panic!());
    assert!(fs.read_only);
}

#[test]
fn block_sizes_and_group_counts() {
    assert_eq!(block_size_of(0), 1024);
    assert_eq!(block_size_of(2), 4096);
    assert_eq!(num_block_groups(8192, 8192), 2);
    assert_eq!(num_block_groups(8191, 8192), 1);
    assert_eq!(num_block_groups(0, 0), 1);
}

#[test]
fn inode_addresses() {
    let fs = Ext2::from_raw(&superblock(1, 0, 0), &bgd_table(2)).unwrap_or_else(|_| panic!());
    // Inode 1 is the first of group 0: at the start of its inode table.
    assert_eq!(fs.inode_addr(1), 5 * 1024);
    // Inode 6: index 5 in group 0, 5 * 256 bytes in.
    assert_eq!(fs.inode_addr(6), 5 * 1024 + 5 * 256);
    // Inode 2049 is the first of group 1.
    assert_eq!(fs.inode_addr(2049), 105 * 1024);
    assert_eq!(fs.inode_location(6, 512), ((5 * 1024 + 5 * 256) / 512, 1, (5 * 1024 + 5 * 256) % 512));
}

fn sample_inode() -> Vec<u8> {
    let mut b = vec![0u8; 128];
    put_u16(&mut b, 0, 0x81A4);
    put_u32(&mut b, 4, 5000);
    put_u32(&mut b, 28, 12);
    for k in 0..5 {
        put_u32(&mut b, 40 + 4 * k, 100 + k as u32);
    }
    put_u32(&mut b, 88, 300);
    put_u32(&mut b, 108, 1);
    b
}

#[test]
fn reads_inodes() {
    let b = sample_inode();
    let inode = Inode::from_bytes(&b, 0);
    assert_eq!(inode._type(), InodeType::RegularFile);
    assert_eq!(inode.size, 5000);
    assert_eq!(inode.direct_block_ptrs()[4], 104);
    assert_eq!(inode.direct_block_ptrs()[5], 0);
    let fs = Ext2::from_raw(&superblock(1, 0, 0x02), &bgd_table(2)).unwrap_or_else(|_| panic!());
    assert_eq!(fs.file_size_bytes(&inode), 5000 | (1u64 << 32));
    let fs32 = Ext2::from_raw(&superblock(1, 0, 0), &bgd_table(2)).unwrap_or_else(|_| panic!());
    assert_eq!(fs32.file_size_bytes(&inode), 5000);
    assert_eq!(fs32.inode_size(&inode), 5000);
    assert_eq!(fs.locate_inode_block(&inode, 3), InodeBlock::Direct { block_num: 103 });
    assert_eq!(fs.locate_inode_block(&inode, 14), InodeBlock::SinglyIndirect { table_block: 300, entry: 2 });
}

#[test]
fn block_addresses() {
    let fs = Ext2::from_raw(&superblock(1, 0, 0), &bgd_table(2)).unwrap_or_else(|_| panic!());
    assert_eq!(fs.block_sectors(10, 512), Ok((20, 2)));
    assert_eq!(fs.block_sectors(8192, 512), Err(ReadBlockErr::InvalidBlockNum));
}

#[test]
fn block_tables() {
    let mut block = vec![0u8; 1024];
    put_u32(&mut block, 0, 7);
    put_u32(&mut block, 4, 8);
    put_u32(&mut block, 8, 9);
    assert_eq!(num_block_entries(&block, 1024), 3);
    assert_eq!(read_block_entry(&block, 1), 8);
    let full = vec![1u8; 1024];
    assert_eq!(num_block_entries(&full, 1024), 256);
}

#[test]
fn counts_blocks_in_use() {
    let fs = Ext2::from_raw(&superblock(1, 0, 0), &bgd_table(2)).unwrap_or_else(|_| panic!());
    let inode = Inode::from_bytes(&sample_inode(), 0);
    let counts = IndirectCounts {
        sibs: 30,
        num_dibs: 0,
        sibs_in_last_dib: 0,
        num_tibs: 0,
        dibs_in_last_tib: 0,
        sibs_in_last_tib_dib: 0,
    };
    // Five direct blocks and thirty through the singly indirect block, which
    // itself takes one.
    assert_eq!(fs.blocks_in_use(&inode, counts), (35, 1));
}

fn entry(b: &mut [u8], at: usize, inode: u32, size: u16, name: &[u8], ty: u8) {
    put_u32(b, at, inode);
    put_u16(b, at + 4, size);
    b[at + 6] = name.len() as u8;
    b[at + 7] = ty;
    b[at + 8..at + 8 + name.len()].copy_from_slice(name);
}

#[test]
fn walks_directory_entries_after_the_first() {
    let mut block = vec![0u8; 1024];
    entry(&mut block, 0, 2, 12, b".", 2);
    entry(&mut block, 12, 2, 12, b"..", 2);
    entry(&mut block, 24, 11, 20, b"lost+found", 2);
    entry(&mut block, 44, 12, 980, b"hello.txt", 1);
    let es = dir_entries(&block, 1024, true).unwrap();
    assert_eq!(es.len(), 3);
    assert_eq!(&block[es[0].name_at..es[0].name_at + es[0].name_len], b"..");
    assert_eq!(es[1].inode, 11);
    assert_eq!(&block[es[2].name_at..es[2].name_at + es[2].name_len], b"hello.txt");
    assert_eq!(DirEntryType::try_from(es[2].type_byte).unwrap().content(), DirEntryContent::RegularFile);
    assert_eq!(DirEntryType::try_from(es[1].type_byte).unwrap().content(), DirEntryContent::Directory);
    assert!(DirEntryType::try_from(9).is_err());
}

#[test]
fn refuses_empty_directory_entries() {
    let mut block = vec![0u8; 1024];
    entry(&mut block, 0, 2, 12, b".", 2);
    entry(&mut block, 12, 2, 0, b"..", 2);
    assert_eq!(dir_entries(&block, 1024, true).err(), Some(ReadDirErr::InvalidDescriptor));
}

#[test]
fn inode_types() {
    assert_eq!(InodeType::try_from(0x4), Ok(InodeType::Dir));
    assert_eq!(InodeType::try_from(0x4).unwrap().content(), DirEntryContent::Directory);
    assert_eq!(InodeType::try_from(0x2).unwrap().content(), DirEntryContent::Unknown);
    assert!(InodeType::try_from(0x3).is_err());
}

#[test]
fn names_directory_entries_and_the_directory() {
    let mut block = vec![0u8; 1024];
    entry(&mut block, 0, 12, 12, b".", 2);
    entry(&mut block, 12, 2, 12, b"..", 2);
    entry(&mut block, 24, 13, 1000, b"notes", 1);
    let es = dir_entries(&block, 1024, true).unwrap();
    let blank = Inode::from_bytes(&[0u8; 128], 0);
    let contents: Vec<DirEntryContent> = es.iter().map(|e| entry_content(e, true, &blank)).collect();
    assert_eq!(contents, vec![DirEntryContent::Directory, DirEntryContent::RegularFile]);
    let listing = dir_listing(&block, &es, &contents).unwrap();
    assert_eq!(listing[0], (2, b"..".to_vec(), DirEntryContent::Directory));
    assert_eq!(listing[1], (13, b"notes".to_vec(), DirEntryContent::RegularFile));
    // Without types in directory entries, the inode tells.
    let mut dir_inode_bytes = [0u8; 128];
    dir_inode_bytes[1] = 0x41;
    let dir_inode = Inode::from_bytes(&dir_inode_bytes, 0);
    assert_eq!(entry_content(&es[1], false, &dir_inode), DirEntryContent::Directory);
    // The directory is named in its parent's listing.
    let parent = vec![(2, b".".to_vec(), DirEntryContent::Directory), (12, b"docs".to_vec(), DirEntryContent::Directory)];
    assert_eq!(dir_name(12, &listing, &parent), b"docs".to_vec());
    assert_eq!(dir_name(2, &listing, &[]), b"/".to_vec());
    // A name that is not UTF-8 makes the listing fail.
    block[24 + 8] = 0xFF;
    assert_eq!(dir_listing(&block, &es, &contents).err(), Some(ReadDirErr::InvalidName));
}
