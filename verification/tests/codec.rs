use rafs::blob_table::{parse_blob_table, RafsBlobEntry, RafsV5BlobTable};
use rafs::bytes::{align_to_rafs, get_le_u16, get_le_u32, get_le_u64, padding_for, put_le_u32};
use rafs::chunk::RafsV5ChunkInfo;
use rafs::digest::RafsDigest;
use rafs::error::RafsError;
use rafs::inode::{
    is_dir_mode, is_reg_mode, is_symlink_mode, InodeRecord, RafsV5Inode, RAFSV5_INODE_FLAG_XATTR,
};
use rafs::layout::{RafsLayoutV5, RafsMeta, RafsV5SuperBlock, RAFSV5_SUPER_MAGIC};
use rafs::reader::RafsIoReader;
use rafs::table::{
    RafsV5ExtBlobEntry, RafsV5ExtBlobTable, RafsV5InodeTable, RafsV5PrefetchTable,
    RafsV5XAttrsTable,
};

fn digest(seed: u8) -> RafsDigest {
    let bytes: Vec<u8> = (0..32u8).map(|i| i.wrapping_mul(7).wrapping_add(seed)).collect();
    RafsDigest::from_buf(&bytes).unwrap()
}

fn sample_chunk() -> RafsV5ChunkInfo {
    RafsV5ChunkInfo {
        block_id: digest(3),
        blob_index: 2,
        flags: 1,
        compress_size: 0x1234,
        decompress_size: 0x10_0000,
        compress_offset: 0x0102_0304_0506_0708,
        decompress_offset: 0x20_0000,
        file_offset: 0x30_0000,
        index: 9,
        reserved: 0,
    }
}

fn sample_inode() -> RafsV5Inode {
    RafsV5Inode {
        i_digest: digest(11),
        i_parent: 1,
        i_ino: 2,
        i_uid: 1000,
        i_gid: 1001,
        i_projid: 7,
        i_mode: 0o100644,
        i_size: 4096,
        i_blocks: 8,
        i_flags: RAFSV5_INODE_FLAG_XATTR,
        i_nlink: 1,
        i_child_index: 0,
        i_child_count: 3,
        i_name_size: 5,
        i_symlink_size: 0,
        i_rdev: 0,
        i_mtime_nsec: 123,
        i_mtime: 1_600_000_000,
        i_reserved: 0,
    }
}

#[test]
fn layout_profile_of_version_five() {
    let l = RafsLayoutV5::new();
    assert_eq!(l.super_block_offset, 0);
    assert_eq!(l.super_block_size, 8192);
    assert_eq!(l.inode_size, 128);
    assert_eq!(l.chunk_info_size, 80);
}

#[test]
fn little_endian_fields_read_at_their_offsets() {
    let data = [0x01u8, 0x02, 0x03, 0x04, 0x05, 0x06, 0x07, 0x08, 0x09];
    assert_eq!(get_le_u16(&data, 1), 0x0302);
    assert_eq!(get_le_u32(&data, 1), 0x0504_0302);
    assert_eq!(get_le_u64(&data, 1), 0x0908_0706_0504_0302);
    let mut buf = vec![0xffu8];
    put_le_u32(&mut buf, 0x0a0b_0c0d);
    assert_eq!(buf, vec![0xff, 0x0d, 0x0c, 0x0b, 0x0a]);
}

#[test]
fn alignment_rounds_up_to_eight() {
    assert_eq!(align_to_rafs(0), 0);
    assert_eq!(align_to_rafs(1), 8);
    assert_eq!(align_to_rafs(8), 8);
    assert_eq!(align_to_rafs(9), 16);
    assert_eq!(padding_for(0), 0);
    assert_eq!(padding_for(5), 3);
    assert_eq!(padding_for(16), 0);
}

#[test]
fn digest_keeps_its_bytes() {
    let bytes: Vec<u8> = (100..132u8).collect();
    let d = RafsDigest::from_buf(&bytes).unwrap();
    assert_eq!(d.to_bytes(), bytes);
    assert_eq!(d.w0, u64::from_le_bytes([100, 101, 102, 103, 104, 105, 106, 107]));
    assert!(RafsDigest::from_buf(&bytes[..31]).is_none());
    assert_eq!(RafsDigest::new().to_bytes(), vec![0u8; 32]);
}

#[test]
fn chunk_record_round_trip() {
    let c = sample_chunk();
    let mut buf = Vec::new();
    c.store(&mut buf);
    assert_eq!(buf.len(), 80);
    assert_eq!(&buf[32..36], &[2, 0, 0, 0]);
    assert_eq!(&buf[48..56], &[8, 7, 6, 5, 4, 3, 2, 1]);
    let mut r = RafsIoReader::new(&buf);
    let mut back = RafsV5ChunkInfo::new();
    assert_eq!(back.load(&mut r), Ok(()));
    assert_eq!(back, c);
    assert_eq!(r.offset(), 80);
    assert!(back.is_compressed());
    assert!(!back.is_hole());
}

#[test]
fn chunk_record_cut_short_is_corrupt() {
    let c = sample_chunk();
    let mut buf = Vec::new();
    c.store(&mut buf);
    buf.truncate(79);
    let mut r = RafsIoReader::new(&buf);
    let mut back = RafsV5ChunkInfo::new();
    assert_eq!(back.load(&mut r), Err(RafsError::CorruptFormat));
    assert_eq!(back, RafsV5ChunkInfo::new());
    assert_eq!(r.offset(), 0);
}

#[test]
fn inode_header_round_trip() {
    let i = sample_inode();
    let mut buf = Vec::new();
    i.store(&mut buf);
    assert_eq!(buf.len(), 128);
    let mut r = RafsIoReader::new(&buf);
    let mut back = RafsV5Inode::new();
    assert_eq!(back.load(&mut r), Ok(()));
    assert_eq!(back, i);
    assert!(back.is_reg());
    assert!(!back.is_dir());
    assert!(!back.is_symlink());
    assert!(back.has_xattr());
    assert!(!back.has_hole());
    assert!(!back.is_hardlink());
    assert_eq!(back.size(), 128 + 8);
}

#[test]
fn inode_record_round_trip_with_padding() {
    let mut inode = sample_inode();
    inode.i_mode = 0o120777;
    inode.i_name_size = 5;
    inode.i_symlink_size = 9;
    let rec = InodeRecord {
        inode,
        name: b"hello".to_vec(),
        symlink: b"/a/target".to_vec(),
    };
    let mut buf = vec![0xeeu8; 16];
    rec.store(&mut buf);
    assert_eq!(buf.len(), 16 + 128 + 8 + 16);
    assert_eq!(&buf[16 + 128..16 + 128 + 8], b"hello\0\0\0");
    let mut r = RafsIoReader::new(&buf);
    r.seek_to_offset(16).unwrap();
    let back = InodeRecord::load(&mut r).unwrap();
    assert_eq!(back, rec);
    assert_eq!(r.offset(), buf.len() as u64);
    assert!(back.inode.is_symlink());
    assert_eq!(back.inode.size(), 128 + 8 + 16);
}

#[test]
fn inode_record_cut_short_is_corrupt() {
    let mut inode = sample_inode();
    inode.i_name_size = 5;
    let rec = InodeRecord { inode, name: b"hello".to_vec(), symlink: Vec::new() };
    let mut buf = Vec::new();
    rec.store(&mut buf);
    buf.truncate(128 + 7);
    let mut r = RafsIoReader::new(&buf);
    assert_eq!(InodeRecord::load(&mut r), Err(RafsError::CorruptFormat));
    assert_eq!(r.offset(), 0);
}

#[test]
fn file_name_follows_the_header() {
    let mut inode = sample_inode();
    inode.i_name_size = 3;
    let rec = InodeRecord { inode, name: b"abc".to_vec(), symlink: Vec::new() };
    let mut buf = Vec::new();
    rec.store(&mut buf);
    let mut r = RafsIoReader::new(&buf);
    let mut head = RafsV5Inode::new();
    head.load(&mut r).unwrap();
    assert_eq!(head.file_name(&mut r), Ok(b"abc".to_vec()));
    assert_eq!(r.offset(), 131);
}

#[test]
fn file_types_follow_the_mode_bits() {
    assert!(is_dir_mode(0o040755));
    assert!(!is_dir_mode(0o100644));
    assert!(is_reg_mode(0o100644));
    assert!(!is_reg_mode(0o120777));
    assert!(is_symlink_mode(0o120777));
    assert!(!is_symlink_mode(0o040755));
    assert!(!is_dir_mode(0o060000));
    assert!(!is_reg_mode(0));
}

#[test]
fn hardlink_is_a_file_with_several_links() {
    let mut i = sample_inode();
    i.i_nlink = 2;
    assert!(i.is_hardlink());
    i.i_mode = 0o040755;
    assert!(!i.is_hardlink());
    i.i_mode = 0o100644;
    i.i_nlink = 1;
    assert!(!i.is_hardlink());
}

#[test]
fn superblock_round_trip() {
    let mut sb = RafsV5SuperBlock::new();
    sb.s_block_size = 0x10_0000;
    sb.s_flags = 0x29;
    sb.s_inodes_count = 6;
    sb.s_inode_table_offset = 8192;
    sb.s_inode_table_entries = 6;
    sb.s_prefetch_table_offset = 8216;
    sb.s_prefetch_table_entries = 2;
    sb.s_blob_table_offset = 8224;
    sb.s_blob_table_size = 24;
    sb.s_extended_blob_table_offset = 8248;
    sb.s_extended_blob_table_entries = 1;
    let mut buf = Vec::new();
    sb.store(&mut buf);
    assert_eq!(buf.len(), 8192);
    assert_eq!(&buf[0..4], &RAFSV5_SUPER_MAGIC.to_le_bytes());
    assert!(buf[80..].iter().all(|b| *b == 0));
    let mut r = RafsIoReader::new(&buf);
    let mut back = RafsV5SuperBlock::new();
    assert_eq!(back.load(&mut r), Ok(()));
    assert_eq!(back, sb);
    assert_eq!(back.version(), 0x500);
    assert_eq!(back.flags(), 0x29);
    assert_eq!(back.inodes_count(), 6);
    let meta = RafsMeta::from(&back);
    assert_eq!(meta.inode_table_offset, 8192);
    assert_eq!(meta.inode_table_entries, 6);
    assert_eq!(meta.prefetch_table_offset, 8216);
    assert_eq!(meta.prefetch_table_entries, 2);
    assert_eq!(meta.blob_table_offset, 8224);
    assert_eq!(meta.blob_table_size, 24);
    assert_eq!(meta.extended_blob_table_offset, 8248);
    assert_eq!(meta.extended_blob_table_entries, 1);
}

fn consistent_superblock() -> RafsV5SuperBlock {
    let mut sb = RafsV5SuperBlock::new();
    sb.s_inode_table_offset = 8192;
    sb.s_inode_table_entries = 4;
    sb.s_prefetch_table_offset = 8208;
    sb.s_prefetch_table_entries = 2;
    sb.s_blob_table_offset = 8216;
    sb.s_blob_table_size = 16;
    sb.s_extended_blob_table_offset = 8232;
    sb.s_extended_blob_table_entries = 1;
    sb
}

#[test]
fn superblock_validation_accepts_a_consistent_layout() {
    let sb = consistent_superblock();
    assert_eq!(sb.validate(8232 + 64), Ok(()));
    assert_eq!(sb.validate(8232 + 63), Err(RafsError::CorruptFormat));
}

#[test]
fn superblock_validation_refuses_wrong_magic_version_and_size() {
    let mut sb = consistent_superblock();
    sb.s_magic = 0x1234_5678;
    assert_eq!(sb.validate(1 << 20), Err(RafsError::CorruptFormat));
    let mut sb = consistent_superblock();
    sb.s_fs_version = 0x300;
    assert_eq!(sb.validate(1 << 20), Err(RafsError::CorruptFormat));
    let mut sb = consistent_superblock();
    sb.s_fs_version = 0x400;
    assert_eq!(sb.validate(1 << 20), Ok(()));
    let mut sb = consistent_superblock();
    sb.s_fs_version = 0x501;
    assert_eq!(sb.validate(1 << 20), Err(RafsError::CorruptFormat));
    let mut sb = consistent_superblock();
    sb.s_sb_size = 4096;
    assert_eq!(sb.validate(1 << 20), Err(RafsError::CorruptFormat));
}

#[test]
fn superblock_validation_refuses_tables_out_of_bounds_or_overlapping() {
    let mut sb = consistent_superblock();
    sb.s_inode_table_offset = 1 << 21;
    assert_eq!(sb.validate(1 << 20), Err(RafsError::CorruptFormat));
    let mut sb = consistent_superblock();
    sb.s_inode_table_offset = 4096;
    assert_eq!(sb.validate(1 << 20), Err(RafsError::CorruptFormat));
    let mut sb = consistent_superblock();
    sb.s_prefetch_table_offset = 8200;
    assert_eq!(sb.validate(1 << 20), Err(RafsError::CorruptFormat));
    let mut sb = consistent_superblock();
    sb.s_blob_table_offset = 8230;
    assert_eq!(sb.validate(1 << 20), Err(RafsError::CorruptFormat));
    let mut sb = consistent_superblock();
    sb.s_prefetch_table_entries = 0;
    sb.s_prefetch_table_offset = 0;
    sb.s_extended_blob_table_offset = 0;
    assert_eq!(sb.validate(1 << 20), Ok(()));
}

#[test]
fn inode_table_offsets_are_eight_times_the_entry() {
    let mut t = RafsV5InodeTable::new(3);
    assert_eq!(t.len(), 3);
    assert_eq!(t.set(1, 8200), Ok(()));
    assert_eq!(t.set(2, 8400), Ok(()));
    assert_eq!(t.set(3, 9000), Ok(()));
    assert_eq!(t.data, vec![1025, 1050, 1125]);
    assert_eq!(t.offset_of(0), Ok(8200));
    assert_eq!(t.offset_of(2), Ok(9000));
    assert_eq!(t.offset_of(3), Err(RafsError::OutOfRange));
    assert_eq!(t.get(1), Ok(8200));
    assert_eq!(t.get(3), Ok(9000));
    assert_eq!(t.get(0), Err(RafsError::OutOfRange));
    assert_eq!(t.get(4), Err(RafsError::OutOfRange));
    assert_eq!(t.set(4, 8), Err(RafsError::OutOfRange));
    assert_eq!(t.set(1, 9), Err(RafsError::CorruptFormat));
    assert_eq!(t.set(1, 8 * (1u64 << 32)), Err(RafsError::CorruptFormat));
    assert_eq!(t.data, vec![1025, 1050, 1125]);
}

#[test]
fn inode_table_round_trip_and_short_stream() {
    let mut t = RafsV5InodeTable::new(3);
    t.data = vec![0x0102_0304, 7, 0xffff_ffff];
    let mut buf = vec![0u8; 5];
    t.store(&mut buf);
    assert_eq!(buf.len(), 17);
    let mut r = RafsIoReader::new(&buf);
    r.seek_to_offset(5).unwrap();
    let mut back = RafsV5InodeTable::new(3);
    assert_eq!(back.load(&mut r), Ok(()));
    assert_eq!(back, t);
    let mut r = RafsIoReader::new(&buf);
    r.seek_to_offset(6).unwrap();
    let mut short = RafsV5InodeTable::new(3);
    assert_eq!(short.load(&mut r), Err(RafsError::CorruptFormat));
    assert_eq!(short.data, vec![0, 0, 0]);
    assert_eq!(r.offset(), 6);
}

#[test]
fn prefetch_table_keeps_its_order() {
    let mut t = RafsV5PrefetchTable::new();
    t.inodes = vec![5, 2, 9, 2];
    let mut buf = vec![0u8; 8];
    t.store(&mut buf);
    let mut r = RafsIoReader::new(&buf);
    let mut back = RafsV5PrefetchTable::new();
    assert_eq!(back.load_prefetch_table_from(&mut r, 8, 4), Ok(4));
    assert_eq!(back.inodes, vec![5, 2, 9, 2]);
    assert_eq!(back.len(), 4);
    let mut r = RafsIoReader::new(&buf);
    let mut short = RafsV5PrefetchTable::new();
    assert_eq!(short.load_prefetch_table_from(&mut r, 12, 4), Err(RafsError::CorruptFormat));
    let mut r = RafsIoReader::new(&buf);
    let mut empty = RafsV5PrefetchTable::new();
    empty.inodes = vec![1];
    assert_eq!(empty.load_prefetch_table_from(&mut r, 1 << 40, 0), Ok(0));
    assert!(empty.inodes.is_empty());
}

#[test]
fn extended_blob_table_round_trip() {
    let e0 = RafsV5ExtBlobEntry { chunk_count: 3, blob_cache_size: 1 << 33, compressed_blob_size: 77 };
    let e1 = RafsV5ExtBlobEntry { chunk_count: 0, blob_cache_size: 5, compressed_blob_size: 1 << 40 };
    let mut buf = Vec::new();
    e0.store(&mut buf);
    e1.store(&mut buf);
    assert_eq!(buf.len(), 128);
    let mut r = RafsIoReader::new(&buf);
    let mut t = RafsV5ExtBlobTable::new();
    assert_eq!(t.load(&mut r, 2), Ok(()));
    assert_eq!(t.entries, vec![e0, e1]);
    assert_eq!(t.get(1), Ok(e1));
    assert_eq!(t.get(2), Err(RafsError::NotFound));
    let mut r = RafsIoReader::new(&buf);
    let mut short = RafsV5ExtBlobTable::new();
    assert_eq!(short.load(&mut r, 3), Err(RafsError::CorruptFormat));
    assert!(short.entries.is_empty());
}

#[test]
fn xattr_header_gives_the_aligned_size() {
    let mut buf = Vec::new();
    buf.extend_from_slice(&13u64.to_le_bytes());
    let mut r = RafsIoReader::new(&buf);
    let mut h = RafsV5XAttrsTable::new();
    assert_eq!(h.load(&mut r), Ok(()));
    assert_eq!(h.size, 13);
    assert_eq!(h.aligned_size(), Some(16));
    let big = RafsV5XAttrsTable { size: u64::MAX - 3 };
    assert_eq!(big.aligned_size(), None);
    let mut r = RafsIoReader::new(&buf[..7]);
    let mut short = RafsV5XAttrsTable::new();
    assert_eq!(short.load(&mut r), Err(RafsError::CorruptFormat));
}

fn blob(id: &str, index: u32, ra_off: u32, ra_size: u32) -> RafsBlobEntry {
    RafsBlobEntry {
        chunk_count: 0,
        readahead_offset: ra_off,
        readahead_size: ra_size,
        blob_id: id.as_bytes().to_vec(),
        blob_index: index,
        blob_cache_size: 0,
        compressed_blob_size: 0,
    }
}

#[test]
fn blob_table_round_trip() {
    let table = RafsV5BlobTable {
        entries: vec![blob("blob-one", 0, 0, 4096), blob("b2", 1, 16, 32), blob("third", 2, 1, 2)],
    };
    let mut buf = Vec::new();
    table.store(&mut buf);
    // 8 + 8 + 1, 8 + 2 + 1, 8 + 5, then padding to a multiple of eight.
    assert_eq!(buf.len(), 48);
    assert_eq!(&buf[8..17], b"blob-one\0");
    assert_eq!(&buf[41..], &[0u8; 7]);
    let mut r = RafsIoReader::new(&buf);
    let mut back = RafsV5BlobTable::new();
    assert_eq!(back.load(&mut r, buf.len() as u32), Ok(()));
    assert_eq!(back, table);
    assert_eq!(back.len(), 3);
    assert_eq!(back.get(1).unwrap().blob_id, b"b2".to_vec());
    assert_eq!(back.get(3), Err(RafsError::NotFound));
}

#[test]
fn blob_table_without_padding_ends_at_the_last_identifier() {
    let table = RafsV5BlobTable { entries: vec![blob("abcdefgh", 0, 7, 9)] };
    let mut buf = Vec::new();
    table.store(&mut buf);
    assert_eq!(buf.len(), 16);
    assert_eq!(parse_blob_table(&buf), Some(table.entries.clone()));
}

#[test]
fn blob_table_of_no_bytes_is_empty() {
    assert_eq!(parse_blob_table(&[]), Some(Vec::new()));
    let buf = [1u8, 2, 3];
    let mut r = RafsIoReader::new(&buf);
    let mut t = RafsV5BlobTable::new();
    assert_eq!(t.load(&mut r, 0), Ok(()));
    assert_eq!(t.len(), 0);
}

#[test]
fn blob_table_with_a_partial_entry_is_corrupt() {
    // Eight bytes of header and no identifier.
    assert_eq!(parse_blob_table(&[1, 0, 0, 0, 2, 0, 0, 0]), None);
    // An empty identifier.
    assert_eq!(parse_blob_table(&[1, 0, 0, 0, 2, 0, 0, 0, 0, 0, 0, 0, 0, 0, 0, 0]), None);
    // A whole entry followed by a remainder that is no padding.
    let mut buf = Vec::new();
    RafsV5BlobTable { entries: vec![blob("abc", 0, 1, 2)] }.store(&mut buf);
    assert_eq!(buf.len(), 16);
    buf[15] = 9;
    assert_eq!(parse_blob_table(&buf), None);
    let mut r = RafsIoReader::new(&buf);
    let mut t = RafsV5BlobTable::new();
    assert_eq!(t.load(&mut r, 16), Err(RafsError::CorruptFormat));
    assert_eq!(r.offset(), 0);
    // A table that the stream does not hold.
    let mut r = RafsIoReader::new(&buf);
    assert_eq!(t.load(&mut r, 17), Err(RafsError::CorruptFormat));
}

#[test]
fn blob_table_takes_sizes_from_the_extended_table() {
    let mut table = RafsV5BlobTable { entries: vec![blob("one", 0, 1, 2), blob("two", 1, 3, 4)] };
    let ext = RafsV5ExtBlobTable {
        entries: vec![RafsV5ExtBlobEntry { chunk_count: 5, blob_cache_size: 100, compressed_blob_size: 60 }],
    };
    table.merge_extended(&ext);
    assert_eq!(table.entries[0].chunk_count, 5);
    assert_eq!(table.entries[0].blob_cache_size, 100);
    assert_eq!(table.entries[0].compressed_blob_size, 60);
    assert_eq!(table.entries[0].blob_id, b"one".to_vec());
    assert_eq!(table.entries[1], blob("two", 1, 3, 4));
}

#[test]
fn reader_refuses_to_leave_the_stream() {
    let data = [1u8, 2, 3, 4, 5, 6, 7, 8, 9, 10];
    let mut r = RafsIoReader::new(&data);
    assert_eq!(r.len(), 10);
    assert_eq!(r.seek_to_offset(10), Ok(()));
    assert_eq!(r.seek_to_offset(11), Err(RafsError::CorruptFormat));
    assert_eq!(r.offset(), 10);
    assert_eq!(r.read_exact(0).map(|b| b.len()), Ok(0));
    assert_eq!(r.read_exact(1).map(|b| b.len()), Err(RafsError::CorruptFormat));
    r.seek_to_offset(2).unwrap();
    assert_eq!(r.read_u16(), Ok(0x0403));
    assert_eq!(r.read_u32(), Ok(0x0807_0605));
    assert_eq!(r.read_u64(), Err(RafsError::CorruptFormat));
    assert_eq!(r.offset(), 8);
    r.seek_to_offset(2).unwrap();
    assert_eq!(r.read_u64(), Ok(0x0a09_0807_0605_0403));
    assert_eq!(r.read_exact(1), Err(RafsError::CorruptFormat));
}

#[test]
fn error_kinds_describe_themselves() {
    assert_eq!(RafsError::CorruptFormat.describe(), "corrupt bootstrap format");
    assert_eq!(RafsError::OutOfRange.describe(), "index or offset out of range");
    assert_eq!(RafsError::NotFound.describe(), "not found");
    assert_eq!(RafsError::NotADirectory.describe(), "not a directory");
    assert_eq!(RafsError::NotRegularFile.describe(), "not a regular file");
    assert_eq!(RafsError::IOFailure.describe(), "I/O failure");
}
