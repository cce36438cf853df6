use rafs::blob_table::{RafsBlobEntry, RafsV5BlobTable};
use rafs::chunk::RafsV5ChunkInfo;
use rafs::command::{entry_kind, ChangeDir, EntryKind};
use rafs::digest::RafsDigest;
use rafs::error::RafsError;
use rafs::inode::{InodeRecord, RafsV5Inode, RAFSV5_INODE_FLAG_XATTR};
use rafs::inspect::RafsInspector;
use rafs::rafs_inode::RafsInode;
use rafs::layout::{RafsLayoutV5, RafsV5SuperBlock};
use rafs::reader::RafsIoReader;
use rafs::table::{RafsV5ExtBlobEntry, RafsV5InodeTable, RafsV5PrefetchTable};
use rafs::visitor::{CollectEntries, CollectUntil, EntryFilter, FindByName};
use rafs::xattr::{parse_xattr_pairs, store_xattr_pairs};

const DIR: u32 = 0o040755;
const REG: u32 = 0o100644;
const LNK: u32 = 0o120777;

struct Node {
    name: &'static str,
    mode: u32,
    ino: u64,
    parent: u64,
    child_index: u32,
    child_count: u32,
    size: u64,
    nlink: u32,
    xattr: Option<Vec<(Vec<u8>, Vec<u8>)>>,
    chunks: Vec<RafsV5ChunkInfo>,
}

fn dir(name: &'static str, ino: u64, parent: u64, child_index: u32, child_count: u32) -> Node {
    Node { name, mode: DIR, ino, parent, child_index, child_count, size: 0, nlink: 2, xattr: None, chunks: Vec::new() }
}

fn file(name: &'static str, ino: u64, parent: u64, size: u64, chunks: Vec<RafsV5ChunkInfo>) -> Node {
    Node {
        name,
        mode: REG,
        ino,
        parent,
        child_index: 0,
        child_count: chunks.len() as u32,
        size,
        nlink: 1,
        xattr: None,
        chunks,
    }
}

fn digest(seed: u8) -> RafsDigest {
    RafsDigest::from_buf(&[seed; 32]).unwrap()
}

fn chunk(seed: u8, blob_index: u32, file_offset: u64, size: u32, compress_offset: u64) -> RafsV5ChunkInfo {
    RafsV5ChunkInfo {
        block_id: digest(seed),
        blob_index,
        flags: 0,
        compress_size: size / 2,
        decompress_size: size,
        compress_offset,
        decompress_offset: file_offset,
        file_offset,
        index: seed as u32,
        reserved: 0,
    }
}

fn pad8(buf: &mut Vec<u8>) {
    while buf.len() % 8 != 0 {
        buf.push(0);
    }
}

fn blob(id: &str, index: u32, ra_off: u32, ra_size: u32) -> RafsBlobEntry {
    RafsBlobEntry {
        chunk_count: 0,
        readahead_offset: ra_off,
        readahead_size: ra_size,
        blob_id: id.as_bytes().to_vec(),
        blob_index: index,
        blob_cache_size: 0,
        compressed_blob_size: 0,
    }
}

/// Lays out superblock, inode table, prefetch table, blob table, extended blob table and
/// the inode records, in that order.
fn build_image(nodes: &[Node], blobs: &[RafsBlobEntry], ext: Option<&[RafsV5ExtBlobEntry]>, prefetch: &[u32]) -> Vec<u8> {
    let mut sb = RafsV5SuperBlock::new();
    sb.s_inodes_count = nodes.len() as u64;
    let mut body: Vec<u8> = Vec::new();
    let base = 8192u64;

    sb.s_inode_table_offset = base;
    sb.s_inode_table_entries = nodes.len() as u32;
    let table_at = body.len();
    body.resize(body.len() + 4 * nodes.len(), 0);
    pad8(&mut body);

    if !prefetch.is_empty() {
        sb.s_prefetch_table_offset = base + body.len() as u64;
        sb.s_prefetch_table_entries = prefetch.len() as u32;
        let t = RafsV5PrefetchTable { inodes: prefetch.to_vec() };
        t.store(&mut body);
        pad8(&mut body);
    }

    if !blobs.is_empty() {
        sb.s_blob_table_offset = base + body.len() as u64;
        let before = body.len();
        RafsV5BlobTable { entries: blobs.to_vec() }.store(&mut body);
        sb.s_blob_table_size = (body.len() - before) as u32;
    }

    if let Some(ext) = ext {
        sb.s_extended_blob_table_offset = base + body.len() as u64;
        sb.s_extended_blob_table_entries = ext.len() as u32;
        for e in ext {
            e.store(&mut body);
        }
    }

    let mut table = RafsV5InodeTable::new(nodes.len());
    for (index, n) in nodes.iter().enumerate() {
        pad8(&mut body);
        let offset = base + body.len() as u64;
        table.data[index] = (offset / 8) as u32;
        let mut inode = RafsV5Inode::new();
        inode.i_digest = digest(n.ino as u8);
        inode.i_parent = n.parent;
        inode.i_ino = n.ino;
        inode.i_mode = n.mode;
        inode.i_size = n.size;
        inode.i_nlink = n.nlink;
        inode.i_child_index = n.child_index;
        inode.i_child_count = n.child_count;
        inode.i_name_size = n.name.len() as u16;
        inode.i_uid = 1000;
        inode.i_gid = 100;
        inode.i_mtime = 1_600_000_000 + n.ino;
        if n.xattr.is_some() {
            inode.i_flags = RAFSV5_INODE_FLAG_XATTR;
        }
        InodeRecord { inode, name: n.name.as_bytes().to_vec(), symlink: Vec::new() }.store(&mut body);
        if let Some(pairs) = &n.xattr {
            let mut block = Vec::new();
            store_xattr_pairs(pairs, &mut block);
            body.extend_from_slice(&(block.len() as u64).to_le_bytes());
            body.extend_from_slice(&block);
            pad8(&mut body);
        }
        for c in &n.chunks {
            c.store(&mut body);
        }
    }
    let mut encoded_table = Vec::new();
    table.store(&mut encoded_table);
    body[table_at..table_at + encoded_table.len()].copy_from_slice(&encoded_table);

    let mut image = Vec::new();
    sb.store(&mut image);
    image.extend_from_slice(&body);
    image
}

/// The tree
///
/// ```text
/// (root)        index 0, inode 1
///   a/          index 1, inode 2
///     b/        index 3, inode 4
///       c.txt   index 5, inode 6, one chunk
///     f.bin     index 4, inode 5, two chunks, extended attributes
///   e.txt       index 2, inode 3, empty
/// ```
fn sample_nodes() -> Vec<Node> {
    let mut f = file("f.bin", 5, 2, 300, vec![chunk(1, 0, 0, 200, 4096), chunk(2, 1, 200, 100, 0)]);
    f.xattr = Some(sample_xattrs());
    vec![
        dir("", 1, 0, 2, 2),
        dir("a", 2, 1, 4, 2),
        file("e.txt", 3, 1, 0, Vec::new()),
        dir("b", 4, 2, 6, 1),
        f,
        file("c.txt", 6, 4, 100, vec![chunk(3, 1, 0, 100, 4096)]),
    ]
}

fn sample_xattrs() -> Vec<(Vec<u8>, Vec<u8>)> {
    vec![
        (b"user.k".to_vec(), b"v1".to_vec()),
        (b"trusted.x".to_vec(), Vec::new()),
        (b"user.k".to_vec(), vec![0, 1, 0]),
    ]
}

fn sample_blobs() -> Vec<RafsBlobEntry> {
    vec![blob("blob-zero", 0, 0, 4096), blob("blob-one", 1, 8, 16)]
}

fn sample_ext() -> Vec<RafsV5ExtBlobEntry> {
    vec![
        RafsV5ExtBlobEntry { chunk_count: 1, blob_cache_size: 200, compressed_blob_size: 100 },
        RafsV5ExtBlobEntry { chunk_count: 2, blob_cache_size: 200, compressed_blob_size: 150 },
    ]
}

fn sample_image() -> Vec<u8> {
    build_image(&sample_nodes(), &sample_blobs(), Some(&sample_ext()), &[6, 5])
}

fn open_sample() -> RafsInspector {
    RafsInspector::new(sample_image(), false).unwrap()
}

fn names(entries: &[rafs::visitor::DirEntry]) -> Vec<String> {
    entries.iter().map(|e| String::from_utf8(e.name.clone()).unwrap()).collect()
}

#[test]
fn open_loads_superblock_and_tables() {
    let i = RafsInspector::new(sample_image(), true).unwrap();
    assert!(i.request_mode);
    assert_eq!(i.cur_dir_index, 0);
    assert!(i.parent_indexes.is_empty());
    assert_eq!(i.layout_profile, RafsLayoutV5::new());
    assert_eq!(i.rafs_meta.inode_table_entries, 6);
    assert_eq!(i.rafs_meta.inode_table_offset, 8192);
    assert_eq!(i.rafs_meta.prefetch_table_entries, 2);
    assert_eq!(i.inodes_table.len(), 6);
    assert_eq!(i.blobs_table.entries, sample_blobs());
    assert_eq!(i.extended_blobs_table.as_ref().unwrap().entries, sample_ext());
    assert_eq!(i.cmd_stats().unwrap().inodes_count, 6);
    assert_eq!(i.cmd_stats().unwrap().version, 0x500);
    assert_eq!(i.cmd_stats().unwrap().flags, 0);
}

#[test]
fn open_without_extended_blob_table_is_a_legacy_image() {
    let image = build_image(&sample_nodes(), &sample_blobs(), None, &[]);
    let i = RafsInspector::new(image, false).unwrap();
    assert!(i.extended_blobs_table.is_none());
    let blobs = i.cmd_list_blobs();
    assert_eq!(blobs.len(), 2);
    assert_eq!(blobs[0].decompressed_size, None);
    assert_eq!(blobs[1].compressed_size, None);
    assert_eq!(i.cmd_list_prefetch(), Ok(Vec::new()));
}

#[test]
fn open_fails_when_inode_table_offset_exceeds_file_length() {
    let mut image = sample_image();
    let beyond = image.len() as u64 + 8;
    image[32..40].copy_from_slice(&beyond.to_le_bytes());
    assert_eq!(RafsInspector::new(image, false).err(), Some(RafsError::CorruptFormat));
}

#[test]
fn open_fails_on_a_short_or_foreign_stream() {
    assert_eq!(RafsInspector::new(vec![0u8; 100], false).err(), Some(RafsError::CorruptFormat));
    assert_eq!(RafsInspector::new(vec![0u8; 9000], false).err(), Some(RafsError::CorruptFormat));
    let mut image = sample_image();
    image.truncate(8192 + 8);
    assert_eq!(RafsInspector::new(image, false).err(), Some(RafsError::CorruptFormat));
}

#[test]
fn open_fails_on_a_broken_blob_table() {
    let mut image = sample_image();
    let sb = RafsInspector::super_block(&mut RafsIoReader::new(&image), &RafsLayoutV5::new()).unwrap();
    let last = (sb.s_blob_table_offset + sb.s_blob_table_size as u64 - 1) as usize;
    assert_eq!(image[last], 0);
    image[last] = 1;
    assert_eq!(RafsInspector::new(image, false).err(), Some(RafsError::CorruptFormat));
}

#[test]
fn super_block_is_read_where_the_layout_says() {
    let image = sample_image();
    let mut r = RafsIoReader::new(&image);
    let sb = RafsInspector::super_block(&mut r, &RafsLayoutV5::new()).unwrap();
    assert_eq!(sb.s_inode_table_entries, 6);
    assert_eq!(r.offset(), 8192);
    let mut moved = RafsLayoutV5::new();
    moved.super_block_offset = 8;
    let mut r = RafsIoReader::new(&image[..8199]);
    assert_eq!(RafsInspector::super_block(&mut r, &moved), Err(RafsError::CorruptFormat));
}

#[test]
fn inodes_are_decoded_on_demand() {
    let i = open_sample();
    let (inode, name) = i.load_inode_by_index(5).unwrap();
    assert_eq!(name, b"c.txt".to_vec());
    assert_eq!(inode.i_ino, 6);
    assert_eq!(inode.i_parent, 4);
    assert_eq!(inode.i_size, 100);
    assert_eq!(i.load_inode_by_index(6).err(), Some(RafsError::OutOfRange));
    let (by_ino, by_ino_name) = i.load_inode_by_ino(6).unwrap();
    assert_eq!(by_ino, inode);
    assert_eq!(by_ino_name, name);
    assert_eq!(i.load_inode_by_ino(0).err(), Some(RafsError::OutOfRange));
    assert_eq!(i.load_inode_by_ino(7).err(), Some(RafsError::OutOfRange));
    let offset = i.inodes_table.offset_of(5).unwrap();
    assert_eq!(i.load_ondisk_inode(offset).unwrap().0, inode);
    assert_eq!(i.load_ondisk_inode(i.bootstrap.len() as u64 - 100).err(), Some(RafsError::CorruptFormat));
    assert_eq!(i.load_ondisk_inode(u64::MAX).err(), Some(RafsError::CorruptFormat));
}

#[test]
fn every_inode_lies_in_the_child_range_of_its_parent() {
    let i = open_sample();
    for index in 1..6usize {
        let (inode, _) = i.load_inode_by_index(index).unwrap();
        let (parent, _) = i.load_inode_by_ino(inode.i_parent).unwrap();
        assert!(parent.is_dir());
        let first = (parent.i_child_index - 1) as usize;
        assert!(first <= index && index < first + parent.i_child_count as usize);
    }
}

#[test]
fn chunks_follow_the_record_and_its_xattr_block() {
    let i = open_sample();
    let nodes = sample_nodes();
    let (f, _) = i.load_inode_by_index(4).unwrap();
    let off = i.inodes_table.offset_of(4).unwrap();
    let mut r = RafsIoReader::new(&i.bootstrap);
    assert_eq!(RafsInspector::list_chunks(&mut r, &f, off), Ok(Some(nodes[4].chunks.clone())));
    let (c, _) = i.load_inode_by_index(5).unwrap();
    let off = i.inodes_table.offset_of(5).unwrap();
    assert_eq!(RafsInspector::list_chunks(&mut r, &c, off), Ok(Some(nodes[5].chunks.clone())));
    let (e, _) = i.load_inode_by_index(2).unwrap();
    let off = i.inodes_table.offset_of(2).unwrap();
    assert_eq!(RafsInspector::list_chunks(&mut r, &e, off), Ok(None));
    let (d, _) = i.load_inode_by_index(1).unwrap();
    let off = i.inodes_table.offset_of(1).unwrap();
    assert_eq!(RafsInspector::list_chunks(&mut r, &d, off), Ok(None));
}

#[test]
fn chunks_beyond_the_stream_are_corrupt() {
    let i = open_sample();
    let (mut c, _) = i.load_inode_by_index(5).unwrap();
    let off = i.inodes_table.offset_of(5).unwrap();
    let mut r = RafsIoReader::new(&i.bootstrap);
    c.i_child_count = 2;
    assert_eq!(RafsInspector::list_chunks(&mut r, &c, off), Err(RafsError::CorruptFormat));
    c.i_child_count = 1;
    c.i_flags = RAFSV5_INODE_FLAG_XATTR;
    assert_eq!(RafsInspector::list_chunks(&mut r, &c, off), Err(RafsError::CorruptFormat));
    c.i_flags = 0;
    assert_eq!(RafsInspector::list_chunks(&mut r, &c, u64::MAX - 10), Err(RafsError::CorruptFormat));
}

#[test]
fn list_dir_gives_the_entries_in_table_order() {
    let mut i = open_sample();
    let entries = i.cmd_list_dir().unwrap();
    assert_eq!(names(&entries), vec!["a", "e.txt"]);
    assert_eq!(entries[0].index, 1);
    assert_eq!(entries[1].index, 2);
    assert_eq!(entries[0].offset, i.inodes_table.offset_of(1).unwrap());
    assert_eq!(entry_kind(&entries[0].inode), EntryKind::Directory);
    assert_eq!(entry_kind(&entries[1].inode), EntryKind::Regular);
    assert_eq!(i.cmd_change_dir(b"a"), Ok(ChangeDir::Entered));
    assert_eq!(names(&i.cmd_list_dir().unwrap()), vec!["b", "f.bin"]);
}

#[test]
fn entry_kind_prefers_regular_then_directory_then_symlink() {
    let mut inode = RafsV5Inode::new();
    inode.i_mode = LNK;
    assert_eq!(entry_kind(&inode), EntryKind::Symlink);
    inode.i_mode = 0o060000;
    assert_eq!(entry_kind(&inode), EntryKind::Other);
}

#[test]
fn iter_dir_on_a_file_is_not_a_directory() {
    let mut i = open_sample();
    i.cur_dir_index = 2;
    assert_eq!(i.cmd_list_dir(), Err(RafsError::NotADirectory));
    i.cur_dir_index = 99;
    assert_eq!(i.cmd_list_dir(), Err(RafsError::OutOfRange));
}

#[test]
fn change_dir_moves_down_and_back_up() {
    let mut i = open_sample();
    assert_eq!(i.cmd_change_dir(b"."), Ok(ChangeDir::Stayed));
    assert_eq!(i.cmd_change_dir(b".."), Ok(ChangeDir::Stayed));
    assert_eq!(i.cur_dir_index, 0);
    assert_eq!(i.cmd_change_dir(b"missing"), Ok(ChangeDir::NoSuchFile));
    assert_eq!(i.cmd_change_dir(b"e.txt"), Ok(ChangeDir::NotADirectory));
    assert_eq!(i.cur_dir_index, 0);
    assert!(i.parent_indexes.is_empty());
    assert_eq!(i.cmd_change_dir(b"a"), Ok(ChangeDir::Entered));
    assert_eq!(i.cur_dir_index, 1);
    assert_eq!(i.cmd_change_dir(b"b"), Ok(ChangeDir::Entered));
    assert_eq!(i.cur_dir_index, 3);
    assert_eq!(i.parent_indexes, vec![0, 1]);
    assert_eq!(i.cmd_change_dir(b".."), Ok(ChangeDir::Left));
    assert_eq!(i.cur_dir_index, 1);
    assert_eq!(i.parent_indexes, vec![0]);
    assert_eq!(i.cmd_change_dir(b".."), Ok(ChangeDir::Left));
    assert_eq!(i.cur_dir_index, 0);
    assert_eq!(i.cmd_change_dir(b".."), Ok(ChangeDir::Stayed));
}

#[test]
fn stat_file_lists_chunks_with_their_blobs() {
    let mut i = open_sample();
    assert_eq!(i.cmd_stat_file(b"nothing"), Ok(None));
    let own = i.cmd_stat_file(b".").unwrap().unwrap();
    assert_eq!(own.stat.index, 0);
    assert_eq!(own.stat.inode.i_ino, 1);
    assert!(own.chunks.is_empty());
    let empty = i.cmd_stat_file(b"e.txt").unwrap().unwrap();
    assert_eq!(empty.stat.name, b"e.txt".to_vec());
    assert_eq!(empty.stat.index, 2);
    assert!(empty.chunks.is_empty());
    i.cmd_change_dir(b"a").unwrap();
    let f = i.cmd_stat_file(b"f.bin").unwrap().unwrap();
    assert_eq!(f.stat.inode.i_ino, 5);
    assert_eq!(f.stat.inode.i_size, 300);
    assert_eq!(f.stat.index, 4);
    assert_eq!(f.chunks.len(), 2);
    assert_eq!(f.chunks[0].chunk, sample_nodes()[4].chunks[0]);
    assert_eq!(f.chunks[0].blob_id, b"blob-zero".to_vec());
    assert_eq!(f.chunks[1].chunk.file_offset, 200);
    assert_eq!(f.chunks[1].blob_id, b"blob-one".to_vec());
    let d = i.cmd_stat_file(b"b").unwrap().unwrap();
    assert!(d.stat.inode.is_dir());
    assert!(d.chunks.is_empty());
}

#[test]
fn stat_file_with_an_unknown_blob_is_not_found() {
    let mut nodes = sample_nodes();
    nodes[5].chunks[0].blob_index = 2;
    let image = build_image(&nodes, &sample_blobs(), None, &[]);
    let mut i = RafsInspector::new(image, false).unwrap();
    i.cmd_change_dir(b"a").unwrap();
    i.cmd_change_dir(b"b").unwrap();
    assert_eq!(i.cmd_stat_file(b"c.txt"), Err(RafsError::NotFound));
    assert_eq!(i.cmd_show_chunk(4096), Err(RafsError::NotFound));
    assert_eq!(i.cmd_show_chunk(1), Ok(Vec::new()));
}

#[test]
fn stat_by_index_names_the_inode() {
    let i = open_sample();
    let s = i.cmd_stat_file_by_index(3).unwrap();
    assert_eq!(s.name, b"b".to_vec());
    assert_eq!(s.index, 3);
    assert_eq!(s.inode.i_ino, 4);
    assert_eq!(i.cmd_stat_file_by_index(6), Err(RafsError::OutOfRange));
}

#[test]
fn list_blobs_joins_both_blob_tables() {
    let i = open_sample();
    let blobs = i.cmd_list_blobs();
    assert_eq!(blobs.len(), 2);
    assert_eq!(blobs[0].blob_id, b"blob-zero".to_vec());
    assert_eq!(blobs[0].readahead_offset, 0);
    assert_eq!(blobs[0].readahead_size, 4096);
    assert_eq!(blobs[0].decompressed_size, Some(200));
    assert_eq!(blobs[0].compressed_size, Some(100));
    assert_eq!(blobs[1].blob_id, b"blob-one".to_vec());
    assert_eq!(blobs[1].readahead_offset, 8);
    assert_eq!(blobs[1].compressed_size, Some(150));
}

#[test]
fn list_blobs_with_a_short_extended_table_leaves_sizes_out() {
    let ext = sample_ext();
    let image = build_image(&sample_nodes(), &sample_blobs(), Some(&ext[..1]), &[]);
    let i = RafsInspector::new(image, false).unwrap();
    let blobs = i.cmd_list_blobs();
    assert_eq!(blobs[0].decompressed_size, Some(200));
    assert_eq!(blobs[1].decompressed_size, None);
    assert_eq!(blobs[1].compressed_size, None);
}

#[test]
fn path_of_three_level_tree() {
    let i = open_sample();
    assert_eq!(i.path_from_ino(6), Ok(b"a/b/c.txt".to_vec()));
    assert_eq!(i.path_from_ino(4), Ok(b"a/b".to_vec()));
    assert_eq!(i.path_from_ino(3), Ok(b"e.txt".to_vec()));
    assert_eq!(i.path_from_ino(1), Ok(Vec::new()));
    assert_eq!(i.path_from_ino(0), Err(RafsError::OutOfRange));
    assert_eq!(i.path_from_ino(7), Err(RafsError::OutOfRange));
}

#[test]
fn path_starts_at_a_root_named_slash() {
    let mut nodes = sample_nodes();
    nodes[0].name = "/";
    let i = RafsInspector::new(build_image(&nodes, &sample_blobs(), None, &[]), false).unwrap();
    assert_eq!(i.path_from_ino(6), Ok(b"/a/b/c.txt".to_vec()));
    assert_eq!(i.path_from_ino(1), Ok(b"/".to_vec()));
}

#[test]
fn path_with_an_unknown_parent_is_out_of_range() {
    let mut nodes = sample_nodes();
    nodes[5].parent = 40;
    let i = RafsInspector::new(build_image(&nodes, &sample_blobs(), None, &[]), false).unwrap();
    assert_eq!(i.path_from_ino(6), Err(RafsError::OutOfRange));
}

#[test]
fn path_in_a_parent_cycle_is_corrupt() {
    let mut nodes = sample_nodes();
    nodes[1].parent = 4;
    let i = RafsInspector::new(build_image(&nodes, &sample_blobs(), None, &[]), false).unwrap();
    assert_eq!(i.path_from_ino(6), Err(RafsError::CorruptFormat));
    assert_eq!(i.path_from_ino(2), Err(RafsError::CorruptFormat));
    assert_eq!(i.path_from_ino(3), Ok(b"e.txt".to_vec()));
}

#[test]
fn list_prefetch_keeps_the_table_order() {
    let i = open_sample();
    let p = i.cmd_list_prefetch().unwrap();
    assert_eq!(p.len(), 2);
    assert_eq!(p[0].inode, 6);
    assert_eq!(p[0].path, b"a/b/c.txt".to_vec());
    assert_eq!(p[1].inode, 5);
    assert_eq!(p[1].path, b"a/f.bin".to_vec());
}

#[test]
fn list_prefetch_with_an_unknown_inode_fails() {
    let image = build_image(&sample_nodes(), &sample_blobs(), None, &[5, 9, 6]);
    let i = RafsInspector::new(image, false).unwrap();
    assert_eq!(i.cmd_list_prefetch(), Err(RafsError::OutOfRange));
}

#[test]
fn walk_visits_level_by_level_depth_first() {
    let i = open_sample();
    let mut all = CollectEntries::new(EntryFilter::All);
    assert_eq!(i.walk_fs(0, &mut all), Ok(()));
    assert_eq!(names(&all.entries), vec!["a", "e.txt", "b", "f.bin", "c.txt"]);
    let indexes: Vec<u32> = all.entries.iter().map(|e| e.index).collect();
    assert_eq!(indexes, vec![1, 2, 3, 4, 5]);
    let mut below_a = CollectEntries::new(EntryFilter::Regular);
    assert_eq!(i.walk_fs(1, &mut below_a), Ok(()));
    assert_eq!(names(&below_a.entries), vec!["f.bin", "c.txt"]);
    let mut none = CollectEntries::new(EntryFilter::All);
    assert_eq!(i.walk_fs(2, &mut none), Err(RafsError::NotADirectory));
    assert_eq!(i.walk_fs(6, &mut none), Err(RafsError::OutOfRange));
    assert!(none.entries.is_empty());
}

#[test]
fn break_skips_the_rest_of_one_directory_only() {
    let i = open_sample();
    // A break at `a` skips `e.txt`, but `a` was seen as a directory and is still visited.
    let mut v = CollectUntil::new(b"a");
    assert_eq!(i.walk_fs(0, &mut v), Ok(()));
    assert_eq!(v.names, vec![b"a".to_vec(), b"b".to_vec(), b"f.bin".to_vec(), b"c.txt".to_vec()]);
    // A break at `b` skips `f.bin`; the walk goes on below `b`.
    let mut v = CollectUntil::new(b"b");
    assert_eq!(i.walk_fs(0, &mut v), Ok(()));
    assert_eq!(v.names, vec![b"a".to_vec(), b"e.txt".to_vec(), b"b".to_vec(), b"c.txt".to_vec()]);
    let mut v = CollectUntil::new(b"a");
    assert_eq!(i.iter_dir(&mut v), Ok(()));
    assert_eq!(v.names, vec![b"a".to_vec()]);
}

#[test]
fn find_by_name_stops_at_the_first_match() {
    let i = open_sample();
    let mut f = FindByName::new(b"e.txt");
    assert_eq!(i.iter_dir(&mut f), Ok(()));
    let hit = f.hit.unwrap();
    assert_eq!(hit.index, 2);
    assert_eq!(hit.inode.i_ino, 3);
    assert_eq!(hit.offset, i.inodes_table.offset_of(2).unwrap());
    assert_eq!(i.find_entry(b"a").unwrap().unwrap().index, 1);
    assert_eq!(i.find_entry(b"b"), Ok(None));
}

#[test]
fn walk_with_a_wrong_parent_is_corrupt() {
    let mut nodes = sample_nodes();
    nodes[4].parent = 1;
    let i = RafsInspector::new(build_image(&nodes, &sample_blobs(), None, &[]), false).unwrap();
    let mut all = CollectEntries::new(EntryFilter::All);
    assert_eq!(i.walk_fs(0, &mut all), Err(RafsError::CorruptFormat));
    assert_eq!(names(&all.entries), vec!["a", "e.txt", "b"]);
    assert_eq!(i.cmd_show_chunk(4096), Err(RafsError::CorruptFormat));
    assert_eq!(i.cmd_check_inode(6), Err(RafsError::CorruptFormat));
}

#[test]
fn walk_in_a_directory_cycle_is_corrupt() {
    // `b` claims the children of `a`, one of which is `b` itself.
    let mut nodes = sample_nodes();
    nodes[3].child_index = 4;
    nodes[3].child_count = 2;
    nodes[3].ino = 2;
    nodes[3].parent = 2;
    let i = RafsInspector::new(build_image(&nodes, &sample_blobs(), None, &[]), false).unwrap();
    let mut all = CollectEntries::new(EntryFilter::All);
    assert_eq!(i.walk_fs(0, &mut all), Err(RafsError::CorruptFormat));
    assert!(all.entries.len() <= 6);
}

#[test]
fn walk_with_children_beyond_the_table_is_out_of_range() {
    let mut nodes = sample_nodes();
    nodes[3].child_count = 3;
    let i = RafsInspector::new(build_image(&nodes, &sample_blobs(), None, &[]), false).unwrap();
    let mut all = CollectEntries::new(EntryFilter::All);
    assert_eq!(i.walk_fs(0, &mut all), Err(RafsError::OutOfRange));
}

#[test]
fn directory_with_entries_and_no_first_child_is_corrupt() {
    let mut nodes = sample_nodes();
    nodes[3].child_index = 0;
    let mut i = RafsInspector::new(build_image(&nodes, &sample_blobs(), None, &[]), false).unwrap();
    i.cur_dir_index = 3;
    assert_eq!(i.cmd_list_dir(), Err(RafsError::CorruptFormat));
}

#[test]
fn show_chunk_finds_every_file_that_shares_the_offset() {
    let i = open_sample();
    let found = i.cmd_show_chunk(4096).unwrap();
    assert_eq!(found.len(), 2);
    assert_eq!(found[0].name, b"f.bin".to_vec());
    assert_eq!(found[0].parent_path, b"a".to_vec());
    assert_eq!(found[0].blob_id, b"blob-zero".to_vec());
    assert_eq!(found[0].chunk, sample_nodes()[4].chunks[0]);
    assert_eq!(found[1].name, b"c.txt".to_vec());
    assert_eq!(found[1].parent_path, b"a/b".to_vec());
    assert_eq!(found[1].blob_id, b"blob-one".to_vec());
    let zero = i.cmd_show_chunk(0).unwrap();
    assert_eq!(zero.len(), 1);
    assert_eq!(zero[0].name, b"f.bin".to_vec());
    assert_eq!(zero[0].chunk.file_offset, 200);
    assert_eq!(i.cmd_show_chunk(12345), Ok(Vec::new()));
}

#[test]
fn check_inode_reports_path_and_stat() {
    let i = open_sample();
    let found = i.cmd_check_inode(5).unwrap();
    assert_eq!(found.len(), 1);
    assert_eq!(found[0].path, b"a/f.bin".to_vec());
    assert_eq!(found[0].stat.name, b"f.bin".to_vec());
    assert_eq!(found[0].stat.index, 4);
    assert_eq!(found[0].stat.inode.i_size, 300);
    assert_eq!(i.cmd_check_inode(1), Ok(Vec::new()));
    assert_eq!(i.cmd_check_inode(77), Ok(Vec::new()));
}

#[test]
fn ondisk_child_by_name_agrees_with_a_linear_scan() {
    let mut i = open_sample();
    for (dir_index, present, absent) in [
        (0u32, vec!["a", "e.txt"], vec!["", "b", "e", "e.txt2", "zz", "0"]),
        (1u32, vec!["b", "f.bin"], vec!["a", "c.txt", "f", "g"]),
        (3u32, vec!["c.txt"], vec!["b", "c", "d"]),
    ] {
        i.cur_dir_index = dir_index;
        for name in present {
            let hit = i.get_child_by_name(dir_index, name.as_bytes()).unwrap();
            assert_eq!(Some(hit), i.find_entry(name.as_bytes()).unwrap());
            assert_eq!(i.load_inode_by_index(hit.index as usize).unwrap().1, name.as_bytes().to_vec());
        }
        for name in absent {
            assert_eq!(i.find_entry(name.as_bytes()), Ok(None));
            assert_eq!(i.get_child_by_name(dir_index, name.as_bytes()), Err(RafsError::NotFound));
        }
    }
    assert_eq!(i.get_child_by_name(2, b"a"), Err(RafsError::NotADirectory));
    assert_eq!(i.get_child_by_name(6, b"a"), Err(RafsError::OutOfRange));
}

#[test]
fn ondisk_child_by_index_is_positional() {
    let i = open_sample();
    let second = i.get_child_by_index(1, 1).unwrap();
    assert_eq!(second.name, b"f.bin".to_vec());
    assert_eq!(second.index, 4);
    assert_eq!(second.offset, i.inodes_table.offset_of(4).unwrap());
    assert_eq!(second.ino(), 5);
    assert_eq!(second.parent(), 2);
    assert_eq!(second.size(), 300);
    assert!(second.is_reg());
    assert!(!second.is_dir());
    assert!(!second.is_hardlink());
    assert!(second.has_xattr());
    assert_eq!(second.get_child_count(), 2);
    assert_eq!(second.name(), b"f.bin".to_vec());
    assert!(rafs::rafs_inode::holds_data(&second));
    assert_eq!(i.get_child_by_index(1, 2).err(), Some(RafsError::OutOfRange));
    assert_eq!(i.get_child_by_index(2, 0).err(), Some(RafsError::NotADirectory));
    assert_eq!(i.get_child_by_index(9, 0).err(), Some(RafsError::OutOfRange));
    let empty = i.get_child_by_index(0, 1).unwrap();
    assert!(empty.is_empty_size());
    assert!(!rafs::rafs_inode::holds_data(&empty));
}

#[test]
fn ondisk_chunk_info_decodes_one_chunk() {
    let i = open_sample();
    let nodes = sample_nodes();
    assert_eq!(i.get_chunk_info(4, 0), Ok(nodes[4].chunks[0]));
    assert_eq!(i.get_chunk_info(4, 1), Ok(nodes[4].chunks[1]));
    assert_eq!(i.get_chunk_info(4, 2), Err(RafsError::OutOfRange));
    assert_eq!(i.get_chunk_info(5, 0), Ok(nodes[5].chunks[0]));
    assert_eq!(i.get_chunk_info(2, 0), Err(RafsError::OutOfRange));
    assert_eq!(i.get_chunk_info(1, 0), Err(RafsError::NotRegularFile));
    assert_eq!(i.get_chunk_info(6, 0), Err(RafsError::OutOfRange));
}

#[test]
fn ondisk_descendants_are_the_files_that_hold_data() {
    let i = open_sample();
    assert_eq!(names(&i.collect_descendants(0).unwrap()), vec!["f.bin", "c.txt"]);
    assert_eq!(names(&i.collect_descendants(3).unwrap()), vec!["c.txt"]);
    assert_eq!(i.collect_descendants(2).err(), Some(RafsError::NotADirectory));
    // A directory with an empty file and a file with data gives the file with data only.
    let nodes = vec![
        dir("", 1, 0, 2, 2),
        file("empty", 2, 1, 0, Vec::new()),
        file("full", 3, 1, 10, vec![chunk(1, 0, 0, 10, 0)]),
    ];
    let i = RafsInspector::new(build_image(&nodes, &sample_blobs(), None, &[]), false).unwrap();
    assert_eq!(names(&i.collect_descendants(0).unwrap()), vec!["full"]);
}

#[test]
fn ondisk_read_is_taken_to_pieces() {
    let i = open_sample();
    let desc = i.alloc_bio_desc(4, 0, 300, true).unwrap();
    assert!(desc.bi_user_io);
    assert_eq!(desc.bi_size, 300);
    let pieces: Vec<(u32, u64, u32, u32)> =
        desc.bi_vec.iter().map(|b| (b.chunkinfo.blob_index, b.chunkinfo.file_offset, b.offset, b.size)).collect();
    assert_eq!(pieces, vec![(0, 0, 0, 200), (1, 200, 0, 100)]);
    let cut = i.alloc_bio_desc(4, 150, 100, false).unwrap();
    let pieces: Vec<(u32, u32)> = cut.bi_vec.iter().map(|b| (b.offset, b.size)).collect();
    assert_eq!(pieces, vec![(150, 50), (0, 50)]);
    assert_eq!(i.alloc_bio_desc(4, 0, 301, false), Err(RafsError::OutOfRange));
    assert_eq!(i.alloc_bio_desc(1, 0, 0, false), Err(RafsError::NotRegularFile));
    assert_eq!(i.alloc_bio_desc(2, 0, 0, false).unwrap().bi_vec.len(), 0);
    assert_eq!(i.alloc_bio_desc(7, 0, 0, false), Err(RafsError::OutOfRange));
}

#[test]
fn xattr_pairs_round_trip() {
    let pairs = sample_xattrs();
    let mut block = vec![7u8; 3];
    store_xattr_pairs(&pairs, &mut block);
    assert_eq!(block.len(), 3 + (4 + 9) + (4 + 10) + (4 + 10));
    assert_eq!(&block[3..7], &[9, 0, 0, 0]);
    assert_eq!(&block[7..16], b"user.k\0v1");
    assert_eq!(parse_xattr_pairs(&block[3..]), Some(pairs));
    assert_eq!(parse_xattr_pairs(&[]), Some(Vec::new()));
}

#[test]
fn xattr_pairs_cut_short_are_refused() {
    let mut block = Vec::new();
    store_xattr_pairs(&sample_xattrs(), &mut block);
    assert_eq!(parse_xattr_pairs(&block[..block.len() - 1]), None);
    assert_eq!(parse_xattr_pairs(&block[..2]), None);
    // A pair without a zero byte has no name.
    assert_eq!(parse_xattr_pairs(&[2, 0, 0, 0, b'a', b'b']), None);
    assert_eq!(parse_xattr_pairs(&[1, 0, 0, 0, 0]), Some(vec![(Vec::new(), Vec::new())]));
}

#[test]
fn ondisk_xattrs_are_decoded_with_the_inode() {
    let i = open_sample();
    assert_eq!(i.get_xattrs(4), Ok(sample_xattrs()));
    assert_eq!(i.get_xattr(4, b"trusted.x"), Ok(Some(Vec::new())));
    assert_eq!(i.get_xattr(4, b"user.k"), Ok(Some(b"v1".to_vec())));
    assert_eq!(i.get_xattr(4, b"user"), Ok(None));
    assert_eq!(i.get_xattrs(5), Ok(Vec::new()));
    assert_eq!(i.get_xattr(5, b"user.k"), Ok(None));
    assert_eq!(i.get_xattrs(6), Err(RafsError::OutOfRange));
}

#[test]
fn ondisk_xattrs_of_a_broken_block_are_corrupt() {
    let mut nodes = sample_nodes();
    nodes[5].xattr = Some(vec![(b"a".to_vec(), b"b".to_vec())]);
    let mut image = build_image(&nodes, &sample_blobs(), None, &[]);
    let i = RafsInspector::new(image.clone(), false).unwrap();
    assert_eq!(i.get_xattrs(5), Ok(vec![(b"a".to_vec(), b"b".to_vec())]));
    let at = (i.inodes_table.offset_of(5).unwrap() + 128 + 8) as usize;
    assert_eq!(&image[at..at + 8], &7u64.to_le_bytes());
    // The pair now claims more bytes than the block holds.
    image[at + 8] = 4;
    let broken = RafsInspector::new(image.clone(), false).unwrap();
    assert_eq!(broken.get_xattrs(5), Err(RafsError::CorruptFormat));
    // The block now claims more bytes than the stream holds.
    image[at + 8] = 3;
    image[at + 4] = 1;
    let broken = RafsInspector::new(image, false).unwrap();
    assert_eq!(broken.get_xattrs(5), Err(RafsError::CorruptFormat));
}
