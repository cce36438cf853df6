//! Directory and file semantics over the records of a bootstrap, decoded on demand. An
//! inode is named by its table index; nothing is kept between two queries.

use vstd::prelude::*;
use crate::bio::{alloc_segments, segments_from};
use crate::bytes::le_u32_at;
use crate::chunk::RafsV5ChunkInfo;
use crate::error::RafsError;
use crate::inode::RafsV5Inode;
use crate::inspect::{chunks_of, chunks_offset, RafsInspector};
use crate::mock_inode::{
    lemma_scan_finds, lemma_scan_misses, scan_from, RafsBio, RafsBioDesc,
};
use crate::name_order::{
    compare_names, lemma_name_lt_asymmetric, lemma_name_lt_irreflexive, name_lt, names_sorted,
    NameOrder,
};
use crate::reader::RafsIoReader;
use crate::table::table_offset;
use crate::visitor::{entry_views, CollectEntries, DirEntry, EntryFilter, EntryView, Hit};

verus! {

/// The chunk with position `idx` among the chunks of the regular file `inode`, whose
/// record lies at `inode_offset` in `s`: `NotRegularFile` for anything but a regular file,
/// `OutOfRange` for a position at or behind the number of chunks, `CorruptFormat` where
/// the stream ends before the chunk record does.
pub open spec fn chunk_at(s: Seq<u8>, inode: RafsV5Inode, inode_offset: int, idx: u32) -> Result<
    RafsV5ChunkInfo,
    RafsError,
> {
    if !inode.spec_is_reg() {
        Err(RafsError::NotRegularFile)
    } else if idx >= inode.i_child_count {
        Err(RafsError::OutOfRange)
    } else {
        match chunks_offset(s, inode, inode_offset) {
            Err(e) => Err(e),
            Ok(start) => if start + 80 * (idx + 1) > s.len() {
                Err(RafsError::CorruptFormat)
            } else {
                Ok(RafsV5ChunkInfo::decoded(s, start + 80 * idx))
            },
        }
    }
}

impl RafsInspector {
    /// The names of the `count` inodes with the table indexes from `first` on.
    pub open spec fn names_in_range(&self, first: int, count: int) -> Seq<Seq<u8>> {
        Seq::new(count as nat, |k: int| self.inode_by_index(first + k)->Ok_0.1)
    }

    /// Whether the entries of the directory `dir` can all be decoded and stand in
    /// strictly ascending order of their names, as those of a well-built image do.
    pub open spec fn entries_sorted(&self, dir: RafsV5Inode) -> bool {
        let first = dir.i_child_index - 1;
        let count = dir.i_child_count as int;
        &&& count > 0 ==> dir.i_child_index >= 1
        &&& first + count <= 0x1_0000_0000
        &&& forall|k: int| 0 <= k < count ==> (#[trigger] self.inode_by_index(first + k)) is Ok
        &&& names_sorted(self.names_in_range(first, count))
    }

    /// What is found at the table index `i`.
    pub open spec fn hit_at(&self, i: int) -> Hit {
        Hit {
            inode: self.inode_by_index(i)->Ok_0.0,
            index: i as u32,
            offset: table_offset(self.inodes_table@, i) as u64,
        }
    }

    /// Whether `hit` is an entry of the directory `dir` whose name is `name`.
    pub open spec fn is_entry_named(&self, dir: RafsV5Inode, hit: Hit, name: Seq<u8>) -> bool {
        &&& dir.i_child_index >= 1
        &&& dir.i_child_index - 1 <= hit.index < dir.i_child_index - 1 + dir.i_child_count
        &&& self.inode_by_index(hit.index as int) is Ok
        &&& self.inode_by_index(hit.index as int)->Ok_0.1 == name
        &&& hit == self.hit_at(hit.index as int)
    }

    /// The entry with the name `name` of the directory with table index `dir_index`,
    /// found by binary search over the names of its entries. Fails with `NotADirectory`
    /// for anything but a directory. A result is always an entry of the directory with
    /// that name. Where the entries are sorted, the result is what a scan of the entries
    /// from the first on finds, and `NotFound` exactly where none has that name.
    pub fn get_child_by_name(&self, dir_index: u32, name: &[u8]) -> (res: Result<Hit, RafsError>)
        ensures
            match self.inode_by_index(dir_index as int) {
                Err(e) => res == Err::<Hit, RafsError>(e),
                Ok((dir, _)) => if !dir.spec_is_dir() {
                    res == Err::<Hit, RafsError>(RafsError::NotADirectory)
                } else {
                    &&& res is Ok ==> self.is_entry_named(dir, res->Ok_0, name@)
                    &&& self.entries_sorted(dir) ==> match scan_from(
                        self.names_in_range(dir.i_child_index - 1, dir.i_child_count as int),
                        name@,
                        0,
                    ) {
                        Some(k) => res == Ok::<Hit, RafsError>(
                            self.hit_at(dir.i_child_index - 1 + k),
                        ),
                        None => res == Err::<Hit, RafsError>(RafsError::NotFound),
                    }
                },
            },
    {
        let (dir, _) = match self.load_inode_by_index(dir_index as usize) {
            Ok(found) => found,
            Err(e) => {
                return Err(e);
            },
        };
        if !dir.is_dir() {
            return Err(RafsError::NotADirectory);
        }
        let count = dir.i_child_count;
        let ghost names = self.names_in_range(dir.i_child_index - 1, count as int);
        if count == 0 {
            proof {
                lemma_scan_misses(names, name@, 0);
            }
            return Err(RafsError::NotFound);
        }
        if dir.i_child_index == 0 {
            return Err(RafsError::CorruptFormat);
        }
        let first = dir.i_child_index - 1;
        let mut lo: u32 = 0;
        let mut hi: u32 = count;
        while lo < hi
            invariant
                lo <= hi <= count,
                count == dir.i_child_count,
                first == dir.i_child_index - 1,
                dir.i_child_index >= 1,
                self.inode_by_index(dir_index as int) is Ok,
                self.inode_by_index(dir_index as int)->Ok_0.0 == dir,
                dir.spec_is_dir(),
                names == self.names_in_range(first as int, count as int),
                self.entries_sorted(dir) ==> forall|j: int| 0 <= j < lo ==> names[j] != name@,
                self.entries_sorted(dir) ==> forall|j: int| hi <= j < count ==> names[j] != name@,
            decreases hi - lo,
        {
            let mid = lo + (hi - lo) / 2;
            let wide = first as u64 + mid as u64;
            if wide > u32::MAX as u64 {
                return Err(RafsError::OutOfRange);
            }
            let idx = wide as u32;
            let (child, child_name) = match self.load_inode_by_index(idx as usize) {
                Ok(found) => found,
                Err(e) => {
                    assert(self.inode_by_index(first + mid) is Err);
                    return Err(e);
                },
            };
            assert(child_name@ == names[mid as int]);
            match compare_names(child_name.as_slice(), name) {
                NameOrder::Same => {
                    let offset = match self.inodes_table.offset_of(idx as usize) {
                        Ok(o) => o,
                        Err(e) => {
                            return Err(e);
                        },
                    };
                    proof {
                        if self.entries_sorted(dir) {
                            assert forall|j: int| 0 <= j < mid implies names[j] != name@ by {
                                assert(name_lt(names[j], names[mid as int]));
                                lemma_name_lt_irreflexive(name@);
                            }
                            lemma_scan_finds(names, name@, 0, mid as int);
                        }
                    }
                    return Ok(Hit { inode: child, index: idx, offset });
                },
                NameOrder::Before => {
                    proof {
                        if self.entries_sorted(dir) {
                            assert forall|j: int| 0 <= j < mid + 1 implies names[j] != name@ by {
                                if j < mid {
                                    assert(name_lt(names[j], names[mid as int]));
                                    if names[j] == name@ {
                                        lemma_name_lt_asymmetric(names[mid as int], name@);
                                    }
                                } else {
                                    lemma_name_lt_irreflexive(name@);
                                }
                            }
                        }
                    }
                    lo = mid + 1;
                },
                NameOrder::After => {
                    proof {
                        if self.entries_sorted(dir) {
                            assert forall|j: int| mid <= j < count implies names[j] != name@ by {
                                if j > mid {
                                    assert(name_lt(names[mid as int], names[j]));
                                    if names[j] == name@ {
                                        lemma_name_lt_asymmetric(name@, names[mid as int]);
                                    }
                                } else {
                                    lemma_name_lt_irreflexive(name@);
                                }
                            }
                        }
                    }
                    hi = mid;
                },
            }
        }
        proof {
            if self.entries_sorted(dir) {
                lemma_scan_misses(names, name@, 0);
            }
        }
        Err(RafsError::NotFound)
    }

    /// The entry at position `local_index` of the directory with table index
    /// `dir_index`. Fails with `NotADirectory` for anything but a directory, with
    /// `OutOfRange` for a position at or behind the number of entries, and with the error
    /// of the decoding of the entry.
    pub fn get_child_by_index(&self, dir_index: u32, local_index: u32) -> (res: Result<
        DirEntry,
        RafsError,
    >)
        ensures
            match self.inode_by_index(dir_index as int) {
                Err(e) => res == Err::<DirEntry, RafsError>(e),
                Ok((dir, _)) => if !dir.spec_is_dir() {
                    res == Err::<DirEntry, RafsError>(RafsError::NotADirectory)
                } else if local_index >= dir.i_child_count {
                    res == Err::<DirEntry, RafsError>(RafsError::OutOfRange)
                } else if dir.i_child_index == 0 {
                    res == Err::<DirEntry, RafsError>(RafsError::CorruptFormat)
                } else if dir.i_child_index - 1 + local_index > u32::MAX {
                    res == Err::<DirEntry, RafsError>(RafsError::OutOfRange)
                } else {
                    match self.inode_by_index(dir.i_child_index - 1 + local_index) {
                        Err(e) => res == Err::<DirEntry, RafsError>(e),
                        Ok((child, name)) => res is Ok && res->Ok_0@ == (EntryView {
                            name,
                            inode: child,
                            index: (dir.i_child_index - 1 + local_index) as u32,
                            offset: table_offset(
                                self.inodes_table@,
                                dir.i_child_index - 1 + local_index,
                            ) as u64,
                        }),
                    }
                },
            },
    {
        let (dir, _) = match self.load_inode_by_index(dir_index as usize) {
            Ok(found) => found,
            Err(e) => {
                return Err(e);
            },
        };
        if !dir.is_dir() {
            return Err(RafsError::NotADirectory);
        }
        if local_index >= dir.i_child_count {
            return Err(RafsError::OutOfRange);
        }
        if dir.i_child_index == 0 {
            return Err(RafsError::CorruptFormat);
        }
        let wide = (dir.i_child_index - 1) as u64 + local_index as u64;
        if wide > u32::MAX as u64 {
            return Err(RafsError::OutOfRange);
        }
        let (child, name) = match self.load_inode_by_index(wide as usize) {
            Ok(found) => found,
            Err(e) => {
                return Err(e);
            },
        };
        let offset = match self.inodes_table.offset_of(wide as usize) {
            Ok(o) => o,
            Err(e) => {
                return Err(e);
            },
        };
        Ok(DirEntry { name, inode: child, index: wide as u32, offset })
    }

    /// The chunk at position `idx` of the regular file with table index `index`; only
    /// that chunk is decoded. Fails with `NotRegularFile` for anything but a regular file
    /// and with `OutOfRange` for a position at or behind the number of chunks.
    pub fn get_chunk_info(&self, index: u32, idx: u32) -> (res: Result<RafsV5ChunkInfo, RafsError>)
        ensures
            match self.inode_by_index(index as int) {
                Err(e) => res == Err::<RafsV5ChunkInfo, RafsError>(e),
                Ok((inode, _)) => res == chunk_at(
                    self.bootstrap@,
                    inode,
                    table_offset(self.inodes_table@, index as int),
                    idx,
                ),
            },
    {
        let (inode, _) = match self.load_inode_by_index(index as usize) {
            Ok(found) => found,
            Err(e) => {
                return Err(e);
            },
        };
        let inode_offset = match self.inodes_table.offset_of(index as usize) {
            Ok(o) => o,
            Err(e) => {
                return Err(e);
            },
        };
        if !inode.is_reg() {
            return Err(RafsError::NotRegularFile);
        }
        if idx >= inode.i_child_count {
            return Err(RafsError::OutOfRange);
        }
        let mut r = RafsIoReader::new(self.bootstrap.as_slice());
        let total = r.len() as u64;
        let after = inode_offset + inode.size();
        let mut start: u64 = after;
        if inode.has_xattr() {
            match r.seek_to_offset(after) {
                Ok(()) => {},
                Err(e) => {
                    return Err(e);
                },
            }
            let size = match r.read_u64() {
                Ok(v) => v,
                Err(e) => {
                    return Err(e);
                },
            };
            if size > u64::MAX - 7 {
                return Err(RafsError::CorruptFormat);
            }
            let aligned = crate::bytes::align_to_rafs(size);
            let wide: u128 = after as u128 + 8 + aligned as u128;
            if wide > total as u128 {
                return Err(RafsError::CorruptFormat);
            }
            start = wide as u64;
        }
        if start > total || (total - start) / 80 <= idx as u64 {
            return Err(RafsError::CorruptFormat);
        }
        match r.seek_to_offset(start + 80 * idx as u64) {
            Ok(()) => {},
            Err(e) => {
                return Err(e);
            },
        }
        let mut chunk = RafsV5ChunkInfo::new();
        match chunk.load(&mut r) {
            Ok(()) => Ok(chunk),
            Err(e) => Err(e),
        }
    }

    /// Everything below the directory with table index `dir_index` that is no directory
    /// and not empty, in the order in which a walk meets it: the files of a directory in
    /// the order of its entries, then what lies below each of its subdirectories, in the
    /// same order. Fails as the walk does, with `NotADirectory` for anything but a
    /// directory.
    pub fn collect_descendants(&self, dir_index: u32) -> (res: Result<Vec<DirEntry>, RafsError>)
        ensures
            ({
                let end = self.walk_from::<CollectEntries>(
                    seq![dir_index],
                    (EntryFilter::Data, Seq::empty()),
                    self.inodes_table@.len() as int,
                );
                match end.1 {
                    Some(e) => res == Err::<Vec<DirEntry>, RafsError>(e),
                    None => res is Ok && entry_views(res->Ok_0@) == end.0.1,
                }
            }),
    {
        let mut collector = CollectEntries::new(EntryFilter::Data);
        match self.walk_fs(dir_index, &mut collector) {
            Ok(()) => Ok(collector.entries),
            Err(e) => Err(e),
        }
    }

    /// The size of the chunks of the image, as the superblock records it.
    pub open spec fn block_size(&self) -> u32 {
        le_u32_at(self.bootstrap@, 12)
    }

    /// The pieces that a read of `size` bytes at `offset` of the file with table index
    /// `index` needs, see `segments_from`.
    pub open spec fn file_segments(&self, index: int, offset: u64, size: usize) -> Result<
        Seq<RafsBio>,
        RafsError,
    > {
        match self.inode_by_index(index) {
            Err(e) => Err(e),
            Ok((inode, _)) => if !inode.spec_is_reg() {
                Err(RafsError::NotRegularFile)
            } else if offset + size > inode.i_size {
                Err(RafsError::OutOfRange)
            } else {
                match chunks_of(
                    self.bootstrap@,
                    inode,
                    table_offset(self.inodes_table@, index),
                ) {
                    Err(e) => Err(e),
                    Ok(chunks) => segments_from(
                        match chunks {
                            Some(c) => c,
                            None => Seq::empty(),
                        },
                        0,
                        offset as int,
                        offset + size,
                        self.block_size(),
                        Seq::empty(),
                    ),
                }
            },
        }
    }

    /// Cuts a read of `size` bytes at `offset` of the file with table index `index`
    /// into pieces of chunks, in file order. Fails with `NotRegularFile` for anything but
    /// a regular file, with `OutOfRange` for a range that passes the end of the file, and
    /// with `CorruptFormat` where the chunks cannot be decoded or do not hold the range
    /// without a gap. No data is read.
    pub fn alloc_bio_desc(&self, index: u32, offset: u64, size: usize, user_io: bool) -> (res:
        Result<RafsBioDesc, RafsError>)
        ensures
            match self.file_segments(index as int, offset, size) {
                Err(e) => res == Err::<RafsBioDesc, RafsError>(e),
                Ok(segs) => {
                    &&& res is Ok
                    &&& res->Ok_0.bi_vec@ == segs
                    &&& res->Ok_0.bi_size == size
                    &&& res->Ok_0.bi_user_io == user_io
                },
            },
    {
        let (inode, _) = match self.load_inode_by_index(index as usize) {
            Ok(found) => found,
            Err(e) => {
                return Err(e);
            },
        };
        let inode_offset = match self.inodes_table.offset_of(index as usize) {
            Ok(o) => o,
            Err(e) => {
                return Err(e);
            },
        };
        if !inode.is_reg() {
            return Err(RafsError::NotRegularFile);
        }
        if size as u64 > inode.i_size || offset > inode.i_size - size as u64 {
            return Err(RafsError::OutOfRange);
        }
        let mut r = RafsIoReader::new(self.bootstrap.as_slice());
        let chunks = match Self::list_chunks(&mut r, &inode, inode_offset) {
            Ok(Some(chunks)) => chunks,
            Ok(None) => Vec::new(),
            Err(e) => {
                return Err(e);
            },
        };
        let blksize = crate::bytes::get_le_u32(self.bootstrap.as_slice(), 12);
        match alloc_segments(&chunks, offset, offset + size as u64, blksize) {
            Ok(bi_vec) => Ok(RafsBioDesc { bi_user_io: user_io, bi_size: size, bi_vec }),
            Err(e) => Err(e),
        }
    }
}

} // verus!
