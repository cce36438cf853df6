use std::sync::Arc;

use rafs::chunk::RafsV5ChunkInfo;
use rafs::digest::RafsDigest;
use rafs::error::RafsError;
use rafs::inode::RAFSV5_INODE_FLAG_XATTR;
use rafs::rafs_inode::RafsInode;
use rafs::mock_inode::{MockChunkInfo, MockInode, RafsSuperMeta, CHUNK_SIZE, RAFS_INODE_BLOCKSIZE};
use rafs::name_order::{compare_names, NameOrder};
use rafs::path::{join_components, join_components_reversed, push_component};
use rafs::visitor::bytes_eq;

const DIR: u32 = 0o040755;
const REG: u32 = 0o100644;
const LNK: u32 = 0o120777;

fn chunk(file_offset: u64, size: u32, blob_index: u32) -> Arc<MockChunkInfo> {
    Arc::new(RafsV5ChunkInfo {
        block_id: RafsDigest::from_buf(&[file_offset as u8; 32]).unwrap(),
        blob_index,
        flags: 0,
        compress_size: size / 2,
        decompress_size: size,
        compress_offset: file_offset / 2,
        decompress_offset: file_offset,
        file_offset,
        index: 0,
        reserved: 0,
    })
}

fn file(name: &str, ino: u64, size: u64, chunks: Vec<Arc<MockChunkInfo>>) -> MockInode {
    let mut f = MockInode::mock(ino, size, chunks);
    f.i_name = name.as_bytes().to_vec();
    f.i_nlink = 1;
    f
}

fn dir(name: &str, ino: u64, children: Vec<MockInode>) -> MockInode {
    let mut d = MockInode::new();
    d.i_name = name.as_bytes().to_vec();
    d.i_ino = ino;
    d.i_mode = DIR;
    d.i_nlink = 2;
    d.i_child_cnt = children.len() as u32;
    d.i_child = children.into_iter().map(Arc::new).collect();
    d
}

fn linear_scan<'a>(d: &'a MockInode, name: &[u8]) -> Option<&'a Arc<MockInode>> {
    d.i_child.iter().find(|c| c.i_name == name)
}

#[test]
fn mock_makes_a_regular_file() {
    let f = MockInode::mock(7, 1500, vec![chunk(0, 1000, 0), chunk(1000, 500, 0)]);
    assert_eq!(f.ino(), 7);
    assert_eq!(f.size(), 1500);
    assert_eq!(f.get_child_count(), 2);
    assert!(f.is_reg());
    assert!(!f.is_dir());
    assert!(!f.is_symlink());
    assert_eq!(f.i_mode, 0o100000);
    assert_eq!(f.i_blksize, CHUNK_SIZE);
    assert_eq!(f.get_blocksize(), 1024 * 1024);
    assert_eq!(f.parent(), 0);
    assert_eq!(f.rdev(), 0);
    assert_eq!(f.projid(), 0);
    assert_eq!(f.flags(), 0);
    assert!(!f.has_xattr());
    assert!(!f.has_hole());
    assert!(!f.is_empty_size());
    assert_eq!(f.get_child_index(), Ok(0));
    assert_eq!(f.get_digest(), RafsDigest::new());
    assert!(f.name().is_empty());
}

#[test]
fn validate_wants_a_target_for_a_symlink() {
    let mut l = MockInode::new();
    l.i_mode = LNK;
    assert_eq!(l.validate(), Err(RafsError::CorruptFormat));
    assert_eq!(l.get_symlink_size(), 0);
    l.i_target = b"/etc/passwd".to_vec();
    assert_eq!(l.validate(), Ok(()));
    assert_eq!(l.get_symlink(), Ok(b"/etc/passwd".to_vec()));
    assert_eq!(l.get_symlink_size(), 11);
    let mut f = MockInode::mock(1, 0, Vec::new());
    f.i_target = b"ignored".to_vec();
    assert_eq!(f.validate(), Ok(()));
    assert_eq!(f.get_symlink(), Err(RafsError::NotFound));
    assert_eq!(f.get_symlink_size(), 0);
}

#[test]
fn attributes_come_from_the_inode() {
    let mut f = file("x", 9, 4096, Vec::new());
    f.i_blocks = 8;
    f.i_rdev = 3;
    f.i_nlink = 4;
    f.i_uid = 55;
    f.i_meta = RafsSuperMeta { attr_timeout: 5, entry_timeout: 7 };
    let a = f.get_attr();
    assert_eq!(a.ino, 9);
    assert_eq!(a.size, 4096);
    assert_eq!(a.blocks, 8);
    assert_eq!(a.mode, 0o100000);
    assert_eq!(a.nlink, 4);
    assert_eq!(a.blksize, RAFS_INODE_BLOCKSIZE);
    assert_eq!(a.blksize, 4096);
    assert_eq!(a.rdev, 3);
    assert_eq!(a.uid, 0);
    assert_eq!(a.mtime, 0);
    let e = f.get_entry();
    assert_eq!(e.inode, 9);
    assert_eq!(e.generation, 0);
    assert_eq!(e.attr, a);
    assert_eq!(e.attr_timeout, 5);
    assert_eq!(e.entry_timeout, 7);
}

#[test]
fn hardlink_is_a_file_with_more_than_one_link() {
    let mut f = file("x", 9, 1, Vec::new());
    assert!(!f.is_hardlink());
    f.i_nlink = 2;
    assert!(f.is_hardlink());
    let d = dir("d", 1, Vec::new());
    assert!(!d.is_hardlink());
}

#[test]
fn names_are_ordered_byte_by_byte() {
    assert_eq!(compare_names(b"a", b"b"), NameOrder::Before);
    assert_eq!(compare_names(b"b", b"a"), NameOrder::After);
    assert_eq!(compare_names(b"abc", b"abc"), NameOrder::Same);
    assert_eq!(compare_names(b"ab", b"abc"), NameOrder::Before);
    assert_eq!(compare_names(b"abc", b"ab"), NameOrder::After);
    assert_eq!(compare_names(b"", b""), NameOrder::Same);
    assert_eq!(compare_names(b"", b"a"), NameOrder::Before);
    assert_eq!(compare_names(b"Z", b"a"), NameOrder::Before);
    assert_eq!(compare_names(&[0xff], b"a"), NameOrder::After);
    assert!(bytes_eq(b"same", b"same"));
    assert!(!bytes_eq(b"same", b"sama"));
    assert!(!bytes_eq(b"same", b"sam"));
}

#[test]
fn child_by_name_agrees_with_a_linear_scan() {
    let names = ["a", "ab", "b", "c.txt", "d", "e", "zz"];
    let children: Vec<MockInode> =
        names.iter().enumerate().map(|(k, n)| file(n, 10 + k as u64, 1, Vec::new())).collect();
    let d = dir("d", 1, children);
    for n in names.iter() {
        let found = d.get_child_by_name(n.as_bytes()).unwrap();
        let scanned = linear_scan(&d, n.as_bytes()).unwrap();
        assert!(Arc::ptr_eq(&found, scanned));
        assert_eq!(found.name(), n.as_bytes().to_vec());
    }
    for n in ["", "0", "aa", "abc", "c", "c.txt2", "zzz", "zy"].iter() {
        assert!(linear_scan(&d, n.as_bytes()).is_none());
        assert_eq!(d.get_child_by_name(n.as_bytes()).err(), Some(RafsError::NotFound));
    }
}

#[test]
fn child_by_name_on_a_file_is_not_a_directory() {
    let f = file("x", 9, 1, Vec::new());
    assert_eq!(f.get_child_by_name(b"x").err(), Some(RafsError::NotADirectory));
    let empty = dir("d", 1, Vec::new());
    assert_eq!(empty.get_child_by_name(b"x").err(), Some(RafsError::NotFound));
}

#[test]
fn child_by_index_is_positional() {
    let d = dir("d", 1, vec![file("a", 2, 1, Vec::new()), file("b", 3, 1, Vec::new())]);
    assert_eq!(d.get_child_by_index(0).unwrap().ino(), 2);
    let second = d.get_child_by_index(1).unwrap();
    assert!(Arc::ptr_eq(&second, &d.i_child[1]));
    assert_eq!(d.get_child_by_index(2).err(), Some(RafsError::OutOfRange));
    assert_eq!(d.get_child_by_index(u64::MAX).err(), Some(RafsError::OutOfRange));
}

#[test]
fn chunk_info_is_for_regular_files() {
    let f = MockInode::mock(7, 1500, vec![chunk(0, 1000, 0), chunk(1000, 500, 1)]);
    assert_eq!(f.get_chunk_info(1).unwrap().blob_index, 1);
    assert!(Arc::ptr_eq(&f.get_chunk_info(0).unwrap(), &f.i_data[0]));
    assert_eq!(f.get_chunk_info(2).err(), Some(RafsError::OutOfRange));
    let d = dir("d", 1, Vec::new());
    assert_eq!(d.get_chunk_info(0).err(), Some(RafsError::NotRegularFile));
}

#[test]
fn xattrs_are_found_by_name() {
    let mut f = file("x", 9, 1, Vec::new());
    f.i_flags = RAFSV5_INODE_FLAG_XATTR;
    f.i_xattr = vec![
        (b"user.a".to_vec(), b"1".to_vec()),
        (b"user.b".to_vec(), b"22".to_vec()),
        (b"user.a".to_vec(), b"333".to_vec()),
    ];
    assert!(f.has_xattr());
    assert_eq!(f.get_xattr(b"user.b"), Ok(Some(b"22".to_vec())));
    assert_eq!(f.get_xattr(b"user.a"), Ok(Some(b"1".to_vec())));
    assert_eq!(f.get_xattr(b"user.c"), Ok(None));
    assert_eq!(f.get_xattrs(), Ok(vec![b"user.a".to_vec(), b"user.b".to_vec(), b"user.a".to_vec()]));
    assert_eq!(f.get_name_size(), 1);
}

#[test]
fn collect_descendants_skips_empty_files() {
    let d = dir("root", 1, vec![file("empty", 2, 0, Vec::new()), file("full", 3, 10, vec![chunk(0, 10, 0)])]);
    let mut out = Vec::new();
    assert_eq!(d.collect_descendants_inodes(&mut out), Ok(0));
    assert_eq!(out.len(), 1);
    assert_eq!(out[0].name(), b"full".to_vec());
    assert!(Arc::ptr_eq(&out[0], &d.i_child[1]));
}

#[test]
fn collect_descendants_takes_files_before_subdirectories() {
    let deep = dir("y", 5, vec![file("deep", 6, 1, Vec::new())]);
    let sub1 = dir("b", 3, vec![deep, file("z1", 7, 2, Vec::new())]);
    let sub2 = dir("d", 8, vec![file("in-d", 9, 3, Vec::new()), file("void", 10, 0, Vec::new())]);
    let mut link = MockInode::new();
    link.i_name = b"l".to_vec();
    link.i_mode = LNK;
    link.i_size = 4;
    let root = dir("", 1, vec![file("a", 2, 5, Vec::new()), sub1, file("c", 4, 6, Vec::new()), sub2, link]);
    let mut out = vec![Arc::new(file("kept", 99, 1, Vec::new()))];
    assert_eq!(root.collect_descendants_inodes(&mut out), Ok(0));
    let names: Vec<Vec<u8>> = out.iter().map(|i| i.name()).collect();
    let want: Vec<Vec<u8>> =
        ["kept", "a", "c", "l", "z1", "deep", "in-d"].iter().map(|n| n.as_bytes().to_vec()).collect();
    assert_eq!(names, want);
}

#[test]
fn collect_descendants_of_a_file_is_not_a_directory() {
    let f = file("x", 9, 1, Vec::new());
    let mut out = Vec::new();
    assert_eq!(f.collect_descendants_inodes(&mut out), Err(RafsError::NotADirectory));
    assert!(out.is_empty());
}

#[test]
fn whole_file_read_tiles_the_file() {
    let f = MockInode::mock(7, 2500, vec![chunk(0, 1000, 0), chunk(1000, 1000, 1), chunk(2000, 500, 0)]);
    let desc = f.alloc_bio_desc(0, 2500, true).unwrap();
    assert!(desc.bi_user_io);
    assert_eq!(desc.bi_size, 2500);
    assert_eq!(desc.bi_vec.len(), 3);
    let mut at = 0u64;
    for (k, bio) in desc.bi_vec.iter().enumerate() {
        assert_eq!(bio.chunkinfo, *f.i_data[k]);
        assert_eq!(bio.chunkinfo.file_offset + bio.offset as u64, at);
        assert_eq!(bio.offset, 0);
        assert_eq!(bio.size, bio.chunkinfo.decompress_size);
        assert_eq!(bio.blksize, CHUNK_SIZE);
        at += bio.size as u64;
    }
    assert_eq!(at, 2500);
}

#[test]
fn partial_read_cuts_the_first_and_the_last_chunk() {
    let f = MockInode::mock(7, 2500, vec![chunk(0, 1000, 0), chunk(1000, 1000, 1), chunk(2000, 500, 0)]);
    let desc = f.alloc_bio_desc(900, 1200, false).unwrap();
    assert!(!desc.bi_user_io);
    assert_eq!(desc.bi_size, 1200);
    let pieces: Vec<(u32, u32, u32)> =
        desc.bi_vec.iter().map(|b| (b.chunkinfo.blob_index, b.offset, b.size)).collect();
    assert_eq!(pieces, vec![(0, 900, 100), (1, 0, 1000), (0, 0, 100)]);
    let inner = f.alloc_bio_desc(1100, 50, false).unwrap();
    assert_eq!(inner.bi_vec.len(), 1);
    assert_eq!(inner.bi_vec[0].offset, 100);
    assert_eq!(inner.bi_vec[0].size, 50);
    assert_eq!(inner.bi_vec[0].chunkinfo.file_offset, 1000);
    let nothing = f.alloc_bio_desc(2500, 0, false).unwrap();
    assert!(nothing.bi_vec.is_empty());
    assert_eq!(nothing.bi_size, 0);
}

#[test]
fn read_beyond_the_file_is_out_of_range() {
    let f = MockInode::mock(7, 2500, vec![chunk(0, 1000, 0), chunk(1000, 1000, 1), chunk(2000, 500, 0)]);
    assert_eq!(f.alloc_bio_desc(0, 2501, false), Err(RafsError::OutOfRange));
    assert_eq!(f.alloc_bio_desc(2500, 1, false), Err(RafsError::OutOfRange));
    assert_eq!(f.alloc_bio_desc(u64::MAX, 2, false), Err(RafsError::OutOfRange));
    let d = dir("d", 1, Vec::new());
    assert_eq!(d.alloc_bio_desc(0, 0, false), Err(RafsError::NotRegularFile));
}

#[test]
fn read_over_a_gap_in_the_chunks_is_corrupt() {
    let gap = MockInode::mock(7, 2500, vec![chunk(0, 1000, 0), chunk(1500, 1000, 1)]);
    assert_eq!(gap.alloc_bio_desc(0, 2500, false), Err(RafsError::CorruptFormat));
    assert_eq!(gap.alloc_bio_desc(0, 1000, false).unwrap().bi_vec.len(), 1);
    assert_eq!(gap.alloc_bio_desc(1500, 1000, false).unwrap().bi_vec.len(), 1);
    let short = MockInode::mock(7, 2500, vec![chunk(0, 1000, 0)]);
    assert_eq!(short.alloc_bio_desc(500, 1000, false), Err(RafsError::CorruptFormat));
}

#[test]
fn paths_are_joined_with_separators() {
    let parts: Vec<Vec<u8>> = ["", "a", "b", "c.txt"].iter().map(|p| p.as_bytes().to_vec()).collect();
    assert_eq!(join_components(&parts), b"a/b/c.txt".to_vec());
    let mut reversed = parts.clone();
    reversed.reverse();
    assert_eq!(join_components_reversed(&reversed), b"a/b/c.txt".to_vec());
    let rooted: Vec<Vec<u8>> = ["/", "a", "b"].iter().map(|p| p.as_bytes().to_vec()).collect();
    assert_eq!(join_components(&rooted), b"/a/b".to_vec());
    let mut p = b"x/y".to_vec();
    push_component(&mut p, b"/abs");
    assert_eq!(p, b"/abs".to_vec());
    push_component(&mut p, b"");
    assert_eq!(p, b"/abs/".to_vec());
    push_component(&mut p, b"z");
    assert_eq!(p, b"/abs/z".to_vec());
    assert_eq!(join_components(&Vec::new()), Vec::<u8>::new());
}

#[test]
fn default_inode_is_blank() {
    let d = MockInode::default();
    assert_eq!(d.ino(), 0);
    assert_eq!(d.i_mode, 0);
    assert!(d.i_child.is_empty());
    assert!(d.i_data.is_empty());
    assert!(!d.is_dir() && !d.is_reg() && !d.is_symlink());
    let blob = d.get_blob_by_index(5).unwrap();
    assert!(blob.blob_id.is_empty());
    assert_eq!(blob.blob_index, 0);
    assert_eq!(blob.chunk_count, 0);
}
