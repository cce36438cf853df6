use std::sync::Arc;

use rafs::blob_table::{RafsBlobEntry, RafsV5BlobTable};
use rafs::chunk::RafsV5ChunkInfo;
use rafs::deduplication::{BlobContext, BlobInfo, ChunkMap, DedupOutcome};
use rafs::digest::RafsDigest;
use rafs::mock_inode::MockInode;

fn digest(seed: u8) -> RafsDigest {
    RafsDigest::from_buf(&[seed; 32]).unwrap()
}

fn chunk(seed: u8, file_offset: u64, compress_offset: u64) -> RafsV5ChunkInfo {
    RafsV5ChunkInfo {
        block_id: digest(seed),
        blob_index: 99,
        flags: 0,
        compress_size: 50,
        decompress_size: 100,
        compress_offset,
        decompress_offset: compress_offset * 2,
        file_offset,
        index: 0,
        reserved: 0,
    }
}

#[test]
fn new_blob_info_is_empty() {
    let b = BlobInfo::new();
    assert_eq!(b.sizes(), (0, 0));
    assert!(b.blob_ids().is_empty());
    assert_eq!(b.chunk_map.len(), 0);
}

#[test]
fn first_registration_inserts() {
    let mut b = BlobInfo::new();
    let c = chunk(1, 0, 4096);
    assert_eq!(b.register(digest(1), c, 3), DedupOutcome::Inserted);
    assert_eq!(b.sizes(), (0, 1));
    let stored = b.chunk_map.get(&digest(1)).unwrap();
    assert_eq!(stored.blob_index, 3);
    assert_eq!(stored.compress_offset, 4096);
    assert_eq!(stored, RafsV5ChunkInfo { blob_index: 3, ..c });
    assert_eq!(b.chunk_map.get(&digest(2)), None);
}

#[test]
fn same_digest_twice_is_reused() {
    let mut b = BlobInfo::new();
    let first = chunk(1, 0, 4096);
    let second = chunk(1, 700, 9000);
    assert_eq!(b.register(digest(1), first, 0), DedupOutcome::Inserted);
    let again = b.register(digest(1), second, 5);
    assert_eq!(again, DedupOutcome::Reused(RafsV5ChunkInfo { blob_index: 0, ..first }));
    assert_eq!(b.register(digest(1), first, 0), again);
    assert_eq!(b.sizes().1, 1);
    assert_eq!(b.chunk_map.get(&digest(1)).unwrap().compress_offset, 4096);
}

#[test]
fn different_digests_do_not_meet() {
    let mut b = BlobInfo::new();
    for seed in 0..20u8 {
        assert_eq!(b.register(digest(seed), chunk(seed, 0, seed as u64), 1), DedupOutcome::Inserted);
    }
    assert_eq!(b.sizes().1, 20);
    for seed in 0..20u8 {
        assert_eq!(b.chunk_map.get(&digest(seed)).unwrap().compress_offset, seed as u64);
    }
    let mut nearly = [7u8; 32];
    nearly[31] = 8;
    assert_eq!(b.chunk_map.get(&RafsDigest::from_buf(&nearly).unwrap()), None);
}

#[test]
fn chunk_map_keeps_the_first_chunk_of_a_digest() {
    let mut m = ChunkMap::new();
    assert_eq!(m.insert_if_absent(digest(4), chunk(4, 0, 1)), None);
    assert_eq!(m.insert_if_absent(digest(4), chunk(4, 0, 2)), Some(chunk(4, 0, 1)));
    assert_eq!(m.insert_if_absent(digest(5), chunk(5, 0, 3)), None);
    assert_eq!(m.len(), 2);
    assert_eq!(m.get(&digest(4)), Some(chunk(4, 0, 1)));
}

#[test]
fn two_files_with_identical_content_share_one_chunk() {
    // Two files of one chunk each; the content, and so the digest, is the same.
    let mut info = BlobInfo::new();
    let shared = digest(42);
    let in_a = RafsV5ChunkInfo { block_id: shared, ..chunk(42, 0, 1000) };
    let in_b = RafsV5ChunkInfo { block_id: shared, ..chunk(42, 0, 2000) };

    let chunk_a = match info.register(shared, in_a, 0) {
        DedupOutcome::Inserted => RafsV5ChunkInfo { blob_index: 0, ..in_a },
        DedupOutcome::Reused(existing) => existing,
    };
    let chunk_b = match info.register(shared, in_b, 1) {
        DedupOutcome::Inserted => RafsV5ChunkInfo { blob_index: 1, ..in_b },
        DedupOutcome::Reused(existing) => existing,
    };
    let file_a = MockInode::mock(2, 100, vec![Arc::new(chunk_a)]);
    let file_b = MockInode::mock(3, 100, vec![Arc::new(chunk_b)]);

    assert_eq!(info.sizes().1, 1);
    let canonical = info.chunk_map.get(&shared).unwrap();
    assert_eq!(canonical.blob_index, 0);
    assert_eq!(canonical.compress_offset, 1000);
    let read_a = file_a.alloc_bio_desc(0, 100, true).unwrap();
    let read_b = file_b.alloc_bio_desc(0, 100, true).unwrap();
    assert_eq!(read_a.bi_vec.len(), 1);
    assert_eq!(read_b.bi_vec.len(), 1);
    assert_eq!(read_a.bi_vec[0].chunkinfo, canonical);
    assert_eq!(read_b.bi_vec[0].chunkinfo, canonical);
}

#[test]
fn blob_contexts_come_from_the_blob_table() {
    let table = RafsV5BlobTable {
        entries: vec![
            RafsBlobEntry {
                chunk_count: 4,
                readahead_offset: 1,
                readahead_size: 2,
                blob_id: b"first".to_vec(),
                blob_index: 0,
                blob_cache_size: 10,
                compressed_blob_size: 5,
            },
            RafsBlobEntry {
                chunk_count: 0,
                readahead_offset: 0,
                readahead_size: 0,
                blob_id: b"second".to_vec(),
                blob_index: 1,
                blob_cache_size: 0,
                compressed_blob_size: 0,
            },
        ],
    };
    let mut info = BlobInfo::new();
    info.register(digest(1), chunk(1, 0, 0), 0);
    info.from_blob_table(&table);
    assert_eq!(info.sizes(), (2, 1));
    assert_eq!(info.blob_ids(), vec![b"first".to_vec(), b"second".to_vec()]);
    assert_eq!(info.blobs[0], BlobContext::from(b"first".to_vec(), 4, 2, 10, 5));
    assert_eq!(info.blobs[1], BlobContext::from(b"second".to_vec(), 0, 0, 0, 0));
    info.from_blob_table(&RafsV5BlobTable::new());
    assert_eq!(info.sizes(), (0, 1));
}

#[test]
fn digests_that_share_their_first_bytes_are_told_apart() {
    // All of these fall into one bucket of the hash table.
    let mut m = ChunkMap::new();
    let mut digests = Vec::new();
    for k in 0..50u8 {
        let mut bytes = [9u8; 32];
        bytes[8] = k;
        bytes[31] = k.wrapping_mul(3);
        digests.push(RafsDigest::from_buf(&bytes).unwrap());
    }
    for (k, d) in digests.iter().enumerate() {
        assert_eq!(m.insert_if_absent(*d, chunk(1, 0, k as u64)), None);
    }
    assert_eq!(m.len(), 50);
    for (k, d) in digests.iter().enumerate() {
        assert_eq!(m.get(d).unwrap().compress_offset, k as u64);
        assert_eq!(m.insert_if_absent(*d, chunk(2, 0, 1000)).unwrap().compress_offset, k as u64);
    }
    assert_eq!(m.len(), 50);
    let mut other = [9u8; 32];
    other[8] = 50;
    assert_eq!(m.get(&RafsDigest::from_buf(&other).unwrap()), None);
}

#[test]
fn many_digests_are_found_again() {
    let mut m = ChunkMap::new();
    for k in 0..2000u32 {
        let mut bytes = [0u8; 32];
        bytes[..4].copy_from_slice(&k.to_le_bytes());
        bytes[20..24].copy_from_slice(&k.to_be_bytes());
        let d = RafsDigest::from_buf(&bytes).unwrap();
        assert_eq!(m.insert_if_absent(d, chunk(0, 0, k as u64)), None);
    }
    assert_eq!(m.len(), 2000);
    for k in (0..2000u32).rev() {
        let mut bytes = [0u8; 32];
        bytes[..4].copy_from_slice(&k.to_le_bytes());
        bytes[20..24].copy_from_slice(&k.to_be_bytes());
        let d = RafsDigest::from_buf(&bytes).unwrap();
        assert_eq!(m.get(&d).unwrap().compress_offset, k as u64);
    }
}
