use ext4fs::dir::{parse_header, DirectoryEntry, FT_DIR, FT_REG_FILE};
use ext4fs::error::Ext4Error;
use ext4fs::fs::{inode_location, split_path, FileSystem};
use ext4fs::group::GroupDescriptor;
use ext4fs::inode::{BlockMap, Extent, ExtentHeader, Inode};
use ext4fs::superblock::Superblock;

const BS: usize = 1024;
const INODE_SIZE: usize = 128;
const IPG: u32 = 16;

fn put_u16(img: &mut [u8], off: usize, v: u16) {
    img[off..off + 2].copy_from_slice(&v.to_le_bytes());
}

fn put_u32(img: &mut [u8], off: usize, v: u32) {
    img[off..off + 4].copy_from_slice(&v.to_le_bytes());
}

fn dirent(inode: u32, rec_len: u16, file_type: u8, name: &[u8]) -> Vec<u8> {
    let mut b = Vec::new();
    b.extend_from_slice(&inode.to_le_bytes());
    b.extend_from_slice(&rec_len.to_le_bytes());
    b.push(name.len() as u8);
    b.push(file_type);
    b.extend_from_slice(name);
    b.resize(rec_len as usize, 0);
    b
}

fn superblock_bytes(log_block_size: u32, ipg: u32) -> Vec<u8> {
    let mut sb = vec![0u8; 1024];
    put_u32(&mut sb, 0x00, 32);
    put_u32(&mut sb, 0x04, 16);
    put_u32(&mut sb, 0x18, log_block_size);
    put_u32(&mut sb, 0x28, ipg);
    put_u16(&mut sb, 0x58, INODE_SIZE as u16);
    sb[0x78..0x78 + 7].copy_from_slice(b"testvol");
    sb
}

fn inode_offset(n: u32) -> usize {
    let idx = (n - 1) as usize;
    let table = if idx / IPG as usize == 0 { 4 } else { 6 };
    table * BS + (idx % IPG as usize) * INODE_SIZE
}

fn put_extent_inode(img: &mut [u8], n: u32, mode: u16, size: u32, start: u32, count: u16) {
    let o = inode_offset(n);
    put_u16(img, o, mode);
    put_u32(img, o + 4, size);
    put_u32(img, o + 0x20, 0x0008_0000);
    put_u16(img, o + 0x28, 0xF30A);
    put_u16(img, o + 0x2A, 1);
    put_u16(img, o + 0x2C, 4);
    put_u16(img, o + 0x2E, 0);
    put_u32(img, o + 0x28 + 12, 0);
    put_u16(img, o + 0x28 + 16, count);
    put_u16(img, o + 0x28 + 18, 0);
    put_u32(img, o + 0x28 + 20, start);
}

fn put_direct_inode(img: &mut [u8], n: u32, mode: u16, size: u32, blocks: &[u32]) {
    let o = inode_offset(n);
    put_u16(img, o, mode);
    put_u32(img, o + 4, size);
    for (k, b) in blocks.iter().enumerate() {
        put_u32(img, o + 0x28 + 4 * k, *b);
    }
}

/// A 16-block image with 1024-byte blocks: root (inode 2) holds `.`, `..`
/// and directory `a` (inode 5, direct-mapped); `a` holds file `b` (inode 9,
/// contents "hello"); root also holds `big` (inode 17, in the second group).
fn sample_image() -> Vec<u8> {
    let mut img = vec![0u8; 16 * BS];
    img[1024..2048].copy_from_slice(&superblock_bytes(0, IPG));
    put_u32(&mut img, 2048 + 8, 4);
    put_u32(&mut img, 2048 + 32 + 8, 6);

    put_extent_inode(&mut img, 2, 0x41ED, BS as u32, 8, 1);
    let mut root = Vec::new();
    root.extend(dirent(2, 12, FT_DIR, b"."));
    root.extend(dirent(2, 12, FT_DIR, b".."));
    root.extend(dirent(5, 12, FT_DIR, b"a"));
    root.extend(dirent(17, (BS - 36) as u16, FT_REG_FILE, b"big"));
    img[8 * BS..9 * BS].copy_from_slice(&root);

    put_direct_inode(&mut img, 5, 0x41ED, BS as u32, &[9]);
    img[9 * BS..10 * BS].copy_from_slice(&dirent(9, BS as u16, FT_REG_FILE, b"b"));

    put_extent_inode(&mut img, 9, 0x81A4, 5, 10, 1);
    img[10 * BS..10 * BS + 5].copy_from_slice(b"hello");

    put_extent_inode(&mut img, 17, 0x81A4, 1500, 11, 2);
    for i in 0..2 * BS {
        img[11 * BS + i] = (i % 251) as u8;
    }
    img
}

#[test]
fn test_root_directory_listing() {
    let fs = FileSystem::open(sample_image()).unwrap();
    let summary = fs.summary();
    assert!(summary.contains("testvol"));
    let entries = fs.read_dir(2).unwrap();
    let names: Vec<&str> = entries.iter().map(|e| e.name.as_str()).collect();
    assert_eq!(names, vec![".", "..", "a", "big"]);
    assert_eq!(entries[2].inode, 5);
    assert!(entries[2].is_directory());
    assert!(entries[3].is_file());
}

#[test]
fn block_size_follows_log() {
    for (log, expected) in [(0u32, 1024u32), (1, 2048), (2, 4096)] {
        let sb = Superblock::parse(&superblock_bytes(log, IPG)).unwrap();
        assert_eq!(sb.block_size(), expected);
    }
}

#[test]
fn superblock_fields_decode() {
    let sb = Superblock::parse(&superblock_bytes(0, IPG)).unwrap();
    assert_eq!(sb.inodes_count, 32);
    assert_eq!(sb.blocks_count, 16);
    assert_eq!(sb.inodes_per_group, IPG);
    assert_eq!(sb.inode_size, 128);
    assert_eq!(sb.volume_name, "testvol");
}

#[test]
fn superblock_short_buffer_is_malformed() {
    assert!(matches!(Superblock::parse(&[0u8; 1023]), Err(Ext4Error::MalformedSuperblock)));
}

#[test]
fn open_rejects_short_image_and_bad_layout() {
    assert!(matches!(FileSystem::open(vec![0u8; 2047]), Err(Ext4Error::Io)));
    let mut img = sample_image();
    put_u32(&mut img, 1024 + 0x28, 0);
    assert!(matches!(FileSystem::open(img), Err(Ext4Error::MalformedSuperblock)));
    let mut img = sample_image();
    put_u32(&mut img, 1024 + 0x18, 30);
    assert!(matches!(FileSystem::open(img), Err(Ext4Error::MalformedSuperblock)));
}

#[test]
fn dirent_short_buffer_and_zero_inode_do_not_match() {
    assert!(DirectoryEntry::parse(&[1, 0, 0, 0, 8, 0, 0]).is_none());
    assert!(DirectoryEntry::parse(&dirent(0, 12, FT_REG_FILE, b"foo")).is_none());
    assert!(DirectoryEntry::parse(&dirent(5, 0, FT_REG_FILE, b"")).is_none());
}

#[test]
fn dirent_record_length_past_buffer_does_not_match() {
    let mut rec = dirent(5, 12, FT_REG_FILE, b"foo");
    put_u16(&mut rec, 4, 13);
    assert!(DirectoryEntry::parse(&rec).is_none());
    let mut rec = dirent(5, 12, FT_REG_FILE, b"foo");
    rec[6] = 5;
    assert!(DirectoryEntry::parse(&rec).is_none());
}

#[test]
fn dirent_round_trip() {
    let rec = dirent(5, 12, 1, b"foo");
    let (e, n) = DirectoryEntry::parse(&rec).unwrap();
    assert_eq!(e.inode, 5);
    assert_eq!(e.name, "foo");
    assert_eq!(e.file_type, 1);
    assert_eq!(n, 12);
    let h = parse_header(&rec).unwrap();
    assert_eq!(h.rec_len, 12);
    assert_eq!(h.name_len, 3);
}

#[test]
fn dirent_invalid_utf8_is_replaced() {
    let rec = dirent(7, 12, 1, &[0x66, 0xFF, 0x6F]);
    let (e, _) = DirectoryEntry::parse(&rec).unwrap();
    assert_eq!(e.name, "f\u{FFFD}o");
}

#[test]
fn extent_resolves_to_consecutive_blocks() {
    let e = Extent { logical_block: 0, block_count: 3, start_block_hi: 0, start_block_lo: 100 };
    assert_eq!(e.blocks(), vec![100, 101, 102]);
    let hi = Extent { logical_block: 0, block_count: 1, start_block_hi: 1, start_block_lo: 2 };
    assert_eq!(hi.physical_block_start(), (1u64 << 32) | 2);
}

#[test]
fn extent_parse_reads_fields() {
    let mut b = vec![0u8; 12];
    put_u32(&mut b, 0, 7);
    put_u16(&mut b, 4, 3);
    put_u16(&mut b, 6, 1);
    put_u32(&mut b, 8, 100);
    let e = Extent::parse(&b).unwrap();
    assert_eq!(e, Extent { logical_block: 7, block_count: 3, start_block_hi: 1, start_block_lo: 100 });
    assert!(matches!(Extent::parse(&b[..11]), Err(Ext4Error::MalformedInode)));
}

#[test]
fn resolve_root_is_inode_two() {
    let fs = FileSystem::open(sample_image()).unwrap();
    let root = fs.resolve_path("/").unwrap();
    let two = fs.read_inode(2).unwrap();
    assert_eq!(root.mode, two.mode);
    assert_eq!(root.blocks(), vec![8]);
    assert_eq!(fs.resolve_inode("/").unwrap(), 2);
    assert_eq!(fs.resolve_inode("//").unwrap(), 2);
}

#[test]
fn inode_location_splits_number() {
    assert_eq!(inode_location(130, 128), (1, 1));
    assert_eq!(inode_location(1, 128), (0, 0));
}

#[test]
fn inode_in_second_group_is_found() {
    let fs = FileSystem::open(sample_image()).unwrap();
    let big = fs.read_inode(17).unwrap();
    assert_eq!(big.size, 1500);
    assert_eq!(big.blocks(), vec![11, 12]);
}

#[test]
fn resolve_nested_path() {
    let fs = FileSystem::open(sample_image()).unwrap();
    assert_eq!(fs.resolve_inode("/a/b").unwrap(), 9);
    assert_eq!(fs.resolve_inode("a//b/").unwrap(), 9);
    let inode = fs.resolve_path("/a/b").unwrap();
    assert_eq!(inode.mode, 0x81A4);
    assert_eq!(inode.size, 5);
    assert_eq!(inode.blocks(), vec![10]);
}

#[test]
fn resolve_missing_component_names_it() {
    let fs = FileSystem::open(sample_image()).unwrap();
    assert!(matches!(fs.resolve_inode("/a/c"), Err(Ext4Error::NotFound(1))));
    assert!(matches!(fs.resolve_path("/zzz"), Err(Ext4Error::NotFound(0))));
}

#[test]
fn read_dir_of_file_is_not_a_directory() {
    let fs = FileSystem::open(sample_image()).unwrap();
    assert!(matches!(fs.read_dir(9), Err(Ext4Error::NotADirectory)));
    assert!(matches!(fs.list_dir("/a/b"), Err(Ext4Error::NotADirectory)));
}

#[test]
fn list_dir_of_direct_mapped_directory() {
    let fs = FileSystem::open(sample_image()).unwrap();
    let entries = fs.list_dir("/a").unwrap();
    assert_eq!(entries.len(), 1);
    assert_eq!(entries[0].name, "b");
    assert_eq!(entries[0].inode, 9);
    let a = fs.read_inode(5).unwrap();
    assert!(matches!(a.block_map, BlockMap::Direct(_)));
    assert_eq!(a.blocks().len(), 15);
}

#[test]
fn read_file_truncates_to_size() {
    let fs = FileSystem::open(sample_image()).unwrap();
    assert_eq!(fs.read_file("/a/b").unwrap(), b"hello".to_vec());
    let big = fs.read_file("/big").unwrap();
    assert_eq!(big.len(), 1500);
    assert_eq!(big[1499], (1499 % 251) as u8);
    assert!(matches!(fs.read_file("/a"), Err(Ext4Error::NotARegularFile)));
}

#[test]
fn block_past_image_end_is_io_error() {
    let mut img = sample_image();
    let o = inode_offset(9);
    put_u32(&mut img, o + 0x28 + 20, 1000);
    let fs = FileSystem::open(img).unwrap();
    assert!(matches!(fs.read_file("/a/b"), Err(Ext4Error::Io)));
}

#[test]
fn extent_header_bad_magic_or_depth() {
    let mut h = vec![0u8; 12];
    put_u16(&mut h, 0, 0x1234);
    assert!(matches!(ExtentHeader::parse(&h), Err(Ext4Error::MalformedInode)));
    put_u16(&mut h, 0, 0xF30A);
    put_u16(&mut h, 2, 2);
    put_u16(&mut h, 6, 1);
    let ok = ExtentHeader::parse(&h).unwrap();
    assert_eq!(ok.entry_count, 2);
    assert_eq!(ok.tree_depth, 1);

    let mut img = sample_image();
    let o = inode_offset(9);
    put_u16(&mut img, o + 0x28, 0xBEEF);
    let raw = img[o..o + INODE_SIZE].to_vec();
    assert!(matches!(Inode::parse(&raw), Err(Ext4Error::MalformedInode)));
    put_u16(&mut img, o + 0x28, 0xF30A);
    put_u16(&mut img, o + 0x2E, 1);
    let raw = img[o..o + INODE_SIZE].to_vec();
    assert!(matches!(Inode::parse(&raw), Err(Ext4Error::UnsupportedFeature)));
    let fs = FileSystem::open(img).unwrap();
    assert!(matches!(fs.resolve_path("/a/b"), Err(Ext4Error::UnsupportedFeature)));
}

#[test]
fn inode_too_short_or_too_many_extents_is_malformed() {
    let img = sample_image();
    let o = inode_offset(9);
    assert!(matches!(Inode::parse(&img[o..o + 99]), Err(Ext4Error::MalformedInode)));
    let mut raw = img[o..o + INODE_SIZE].to_vec();
    put_u16(&mut raw, 0x2A, 5);
    assert!(matches!(Inode::parse(&raw), Err(Ext4Error::MalformedInode)));
}

#[test]
fn group_descriptor_reads_inode_table() {
    let mut b = vec![0u8; 32];
    put_u32(&mut b, 8, 77);
    assert_eq!(GroupDescriptor::parse(&b).inode_table_block, 77);
}

#[test]
fn split_path_drops_empty_components() {
    let parts = split_path(b"//usr//lib/");
    assert_eq!(parts, vec![b"usr".to_vec(), b"lib".to_vec()]);
    assert!(split_path(b"/").is_empty());
}
