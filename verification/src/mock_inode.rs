//! An inode tree held in memory, with the same directory and file semantics as the
//! records of a bootstrap.

use vstd::prelude::*;
use std::sync::Arc;
use crate::blob_table::RafsBlobEntry;
use crate::bytes::copy_range;
use crate::chunk::RafsV5ChunkInfo;
use crate::digest::RafsDigest;
use crate::error::RafsError;
use crate::inode::{mode_is_dir, mode_is_reg, mode_is_symlink, s_ifreg};
use crate::rafs_inode::RafsInode;
use crate::name_order::{
    compare_names, lemma_name_lt_asymmetric, lemma_name_lt_irreflexive, name_lt, names_sorted,
    NameOrder,
};
use crate::visitor::bytes_eq;

verus! {

/// Block size that every inode reports in its attributes.
pub const RAFS_INODE_BLOCKSIZE: u32 = 4096;

/// Size of the chunks of an in-memory file.
pub const CHUNK_SIZE: u32 = 1024 * 1024;

/// A chunk of an in-memory file.
pub type MockChunkInfo = RafsV5ChunkInfo;

/// What the file system reports of an inode when asked for its attributes.
#[derive(Clone, Copy, Debug, PartialEq, Eq, Structural)]
pub struct Attr {
    pub ino: u64,
    pub size: u64,
    pub blocks: u64,
    pub atime: u64,
    pub mtime: u64,
    pub ctime: u64,
    pub atimensec: u32,
    pub mtimensec: u32,
    pub ctimensec: u32,
    pub mode: u32,
    pub nlink: u32,
    pub uid: u32,
    pub gid: u32,
    pub rdev: u32,
    pub blksize: u32,
}

/// What the file system reports of an inode when it is looked up: its attributes and for
/// how many seconds they and the entry may be cached.
#[derive(Clone, Copy, Debug, PartialEq, Eq, Structural)]
pub struct Entry {
    pub inode: u64,
    pub generation: u64,
    pub attr: Attr,
    pub attr_timeout: u64,
    pub entry_timeout: u64,
}

/// Settings of the mounted file system that an inode needs to answer a lookup.
#[derive(Clone, Copy, Debug, PartialEq, Eq, Structural)]
pub struct RafsSuperMeta {
    /// Seconds for which attributes may be cached.
    pub attr_timeout: u64,
    /// Seconds for which an entry may be cached.
    pub entry_timeout: u64,
}

/// One piece of a read: the part of one chunk that a byte range of a file needs.
#[derive(Clone, Copy, Debug, PartialEq, Eq, Structural)]
pub struct RafsBio {
    /// The chunk, which says where its data lies in which blob.
    pub chunkinfo: RafsV5ChunkInfo,
    /// Offset of the piece within the decompressed chunk.
    pub offset: u32,
    /// Length of the piece.
    pub size: u32,
    /// Size of the chunks of the file.
    pub blksize: u32,
}

impl RafsBio {
    /// The offset in the file at which the piece starts.
    pub open spec fn file_start(self) -> int {
        self.chunkinfo.file_offset + self.offset
    }

    /// The offset in the file at which the piece ends.
    pub open spec fn file_end(self) -> int {
        self.chunkinfo.file_offset + self.offset + self.size
    }

    /// The piece is not empty and lies inside its chunk.
    pub open spec fn inside_chunk(self) -> bool {
        0 < self.size && self.offset + self.size <= self.chunkinfo.decompress_size
    }
}

/// The pieces of a read, in file order.
#[derive(Clone, Debug, PartialEq, Eq)]
pub struct RafsBioDesc {
    /// Whether the read was asked for by a user rather than by prefetching.
    pub bi_user_io: bool,
    /// Total length of the pieces.
    pub bi_size: usize,
    pub bi_vec: Vec<RafsBio>,
}

/// An inode held in memory, with its chunks and its children.
#[derive(Clone, Debug)]
pub struct MockInode {
    pub i_ino: u64,
    pub i_name: Vec<u8>,
    pub i_digest: RafsDigest,
    pub i_parent: u64,
    pub i_mode: u32,
    pub i_projid: u32,
    pub i_uid: u32,
    pub i_gid: u32,
    pub i_flags: u64,
    pub i_size: u64,
    pub i_blocks: u64,
    pub i_nlink: u32,
    pub i_child_idx: u32,
    pub i_child_cnt: u32,
    pub i_blksize: u32,
    pub i_rdev: u32,
    pub i_mtime_nsec: u32,
    pub i_mtime: u64,
    /// The target of a symbolic link.
    pub i_target: Vec<u8>,
    /// The extended attributes, as pairs of name and value.
    pub i_xattr: Vec<(Vec<u8>, Vec<u8>)>,
    /// The chunks of a regular file, in file order.
    pub i_data: Vec<Arc<MockChunkInfo>>,
    /// The entries of a directory, sorted by name.
    pub i_child: Vec<Arc<MockInode>>,
    pub i_meta: RafsSuperMeta,
}

/// Another pointer to the value that `a` points to. What is claimed of `Arc::clone` is
/// what its documentation says: the new pointer shares the allocation of the old one.
#[verifier::external_body]
fn share<T>(a: &Arc<T>) -> (r: Arc<T>)
    ensures
        r == *a,
{
    a.clone()
}

/// The position of the first name of `names` at or behind `k` that equals `name`.
pub open spec fn scan_from(names: Seq<Seq<u8>>, name: Seq<u8>, k: int) -> Option<int>
    decreases names.len() - k,
{
    if k < 0 || k >= names.len() {
        None
    } else if names[k] == name {
        Some(k)
    } else {
        scan_from(names, name, k + 1)
    }
}

/// A scan finds the first position that holds the name.
pub proof fn lemma_scan_finds(names: Seq<Seq<u8>>, name: Seq<u8>, k: int, m: int)
    requires
        0 <= k <= m < names.len(),
        names[m] == name,
        forall|j: int| k <= j < m ==> names[j] != name,
    ensures
        scan_from(names, name, k) == Some(m),
    decreases m - k,
{
    if k < m {
        lemma_scan_finds(names, name, k + 1, m);
    }
}

/// A scan finds nothing where no position holds the name.
pub proof fn lemma_scan_misses(names: Seq<Seq<u8>>, name: Seq<u8>, k: int)
    requires
        0 <= k,
        forall|j: int| k <= j < names.len() ==> names[j] != name,
    ensures
        scan_from(names, name, k) is None,
    decreases names.len() - k,
{
    if k < names.len() {
        lemma_scan_misses(names, name, k + 1);
    }
}

/// The entries among the first `k` of `children` that are no directories and not empty,
/// in order.
pub open spec fn files_among(children: Seq<Arc<MockInode>>, k: int) -> Seq<Arc<MockInode>>
    decreases k,
{
    if k <= 0 || k > children.len() {
        Seq::empty()
    } else {
        let c = children[k - 1];
        if !mode_is_dir(c.i_mode) && c.i_size != 0 {
            files_among(children, k - 1).push(c)
        } else {
            files_among(children, k - 1)
        }
    }
}

/// The directories among the first `k` of `children`, in order.
pub open spec fn dirs_among(children: Seq<Arc<MockInode>>, k: int) -> Seq<int>
    decreases k,
{
    if k <= 0 || k > children.len() {
        Seq::empty()
    } else if mode_is_dir(children[k - 1].i_mode) {
        dirs_among(children, k - 1).push(k - 1)
    } else {
        dirs_among(children, k - 1)
    }
}

impl MockInode {
    /// The names of the children, in order.
    pub open spec fn child_names(&self) -> Seq<Seq<u8>> {
        Seq::new(self.i_child@.len(), |i: int| self.i_child@[i].i_name@)
    }

    /// The children stand in strictly ascending order of their names.
    pub open spec fn children_sorted(&self) -> bool {
        names_sorted(self.child_names())
    }

    /// Whether the inode is a directory.
    pub open spec fn spec_is_dir(&self) -> bool {
        mode_is_dir(self.i_mode)
    }

    /// Whether the inode is a regular file.
    pub open spec fn spec_is_reg(&self) -> bool {
        mode_is_reg(self.i_mode)
    }

    /// Whether the inode is a symbolic link.
    pub open spec fn spec_is_symlink(&self) -> bool {
        mode_is_symlink(self.i_mode)
    }

    /// Everything below a directory that is no directory and not empty: the files of the
    /// directory itself in the order of its entries, then what lies below each of its
    /// subdirectories, in the same order.
    pub open spec fn descendants(&self) -> Seq<Arc<MockInode>>
        decreases self,
    {
        files_among(self.i_child@, self.i_child@.len() as int) + Self::below(
            self.i_child@,
            self.i_child@.len() as int,
        )
    }

    /// What lies below the directories among the first `k` of `children`.
    pub open spec fn below(children: Seq<Arc<MockInode>>, k: int) -> Seq<Arc<MockInode>>
        decreases children, k,
    {
        if k <= 0 || k > children.len() {
            Seq::empty()
        } else if mode_is_dir(children[k - 1].i_mode) {
            Self::below(children, k - 1) + children[k - 1].descendants()
        } else {
            Self::below(children, k - 1)
        }
    }

    /// Whether every field but the inode number, the size, the mode, the chunk size, the
    /// chunks and their number is zero or empty.
    pub open spec fn blank_but_for_data(&self) -> bool {
        &&& self.i_parent == 0 && self.i_projid == 0 && self.i_uid == 0 && self.i_gid == 0
        &&& self.i_flags == 0 && self.i_blocks == 0 && self.i_nlink == 0 && self.i_child_idx == 0
        &&& self.i_rdev == 0 && self.i_mtime_nsec == 0 && self.i_mtime == 0
        &&& self.i_digest == (RafsDigest { w0: 0, w1: 0, w2: 0, w3: 0 })
        &&& self.i_meta == (RafsSuperMeta { attr_timeout: 0, entry_timeout: 0 })
        &&& self.i_name@.len() == 0 && self.i_target@.len() == 0 && self.i_xattr@.len() == 0
        &&& self.i_child@.len() == 0
    }

    /// The attributes of the inode. What the inode does not record is zero.
    pub open spec fn attr(&self) -> Attr {
        Attr {
            ino: self.i_ino,
            size: self.i_size,
            blocks: self.i_blocks,
            atime: 0,
            mtime: 0,
            ctime: 0,
            atimensec: 0,
            mtimensec: 0,
            ctimensec: 0,
            mode: self.i_mode,
            nlink: self.i_nlink,
            uid: 0,
            gid: 0,
            rdev: self.i_rdev,
            blksize: RAFS_INODE_BLOCKSIZE,
        }
    }

    /// An inode with every field zero or empty.
    pub fn new() -> (i: Self)
        ensures
            i.blank_but_for_data(),
            i.i_ino == 0 && i.i_mode == 0 && i.i_size == 0 && i.i_child_cnt == 0,
            i.i_blksize == 0 && i.i_data@.len() == 0,
    {
        MockInode {
            i_ino: 0,
            i_name: Vec::new(),
            i_digest: RafsDigest::new(),
            i_parent: 0,
            i_mode: 0,
            i_projid: 0,
            i_uid: 0,
            i_gid: 0,
            i_flags: 0,
            i_size: 0,
            i_blocks: 0,
            i_nlink: 0,
            i_child_idx: 0,
            i_child_cnt: 0,
            i_blksize: 0,
            i_rdev: 0,
            i_mtime_nsec: 0,
            i_mtime: 0,
            i_target: Vec::new(),
            i_xattr: Vec::new(),
            i_data: Vec::new(),
            i_child: Vec::new(),
            i_meta: RafsSuperMeta { attr_timeout: 0, entry_timeout: 0 },
        }
    }

    /// A regular file with the inode number `ino`, the size `size` and the chunks
    /// `chunks`, whose number is recorded cut to 32 bits. Everything else is zero or
    /// empty.
    pub fn mock(ino: u64, size: u64, chunks: Vec<Arc<MockChunkInfo>>) -> (i: Self)
        ensures
            i.i_ino == ino,
            i.i_size == size,
            i.i_data@ == chunks@,
            i.i_child_cnt == chunks@.len() % 0x1_0000_0000,
            i.i_mode == crate::inode::mode_type_reg(),
            i.spec_is_reg(),
            i.i_blksize == CHUNK_SIZE,
            i.blank_but_for_data(),
    {
        let mut i = Self::new();
        i.i_ino = ino;
        i.i_size = size;
        i.i_child_cnt = (chunks.len() as u64 % 0x1_0000_0000) as u32;
        i.i_data = chunks;
        i.i_mode = s_ifreg();
        i.i_blksize = CHUNK_SIZE;
        assert(0x8000u32 & 0xF000u32 == 0x8000u32) by (bit_vector);
        i
    }

    /// Checks the inode: a symbolic link must have a target. Fails with `CorruptFormat`
    /// exactly where it has none.
    pub fn validate(&self) -> (res: Result<(), RafsError>)
        ensures
            res is Ok <==> !(self.spec_is_symlink() && self.i_target@.len() == 0),
            res is Err ==> res->Err_0 == RafsError::CorruptFormat,
    {
        if self.is_symlink() && self.i_target.len() == 0 {
            return Err(RafsError::CorruptFormat);
        }
        Ok(())
    }

    /// The attributes of the inode. What the inode does not record is zero.
    pub fn get_attr(&self) -> (a: Attr)
        ensures
            a == self.attr(),
    {
        Attr {
            ino: self.i_ino,
            size: self.i_size,
            blocks: self.i_blocks,
            atime: 0,
            mtime: 0,
            ctime: 0,
            atimensec: 0,
            mtimensec: 0,
            ctimensec: 0,
            mode: self.i_mode,
            nlink: self.i_nlink,
            uid: 0,
            gid: 0,
            rdev: self.i_rdev,
            blksize: RAFS_INODE_BLOCKSIZE,
        }
    }

    /// What a lookup of the inode reports: its attributes, its number, generation zero,
    /// and the cache timeouts of the file system.
    pub fn get_entry(&self) -> (e: Entry)
        ensures
            e == (Entry {
                inode: self.i_ino,
                generation: 0,
                attr: self.attr(),
                attr_timeout: self.i_meta.attr_timeout,
                entry_timeout: self.i_meta.entry_timeout,
            }),
    {
        Entry {
            attr: self.get_attr(),
            inode: self.i_ino,
            generation: 0,
            attr_timeout: self.i_meta.attr_timeout,
            entry_timeout: self.i_meta.entry_timeout,
        }
    }

    /// The target of a symbolic link. Fails with `NotFound` for anything else.
    pub fn get_symlink(&self) -> (res: Result<Vec<u8>, RafsError>)
        ensures
            res is Ok <==> self.spec_is_symlink(),
            res is Ok ==> res->Ok_0@ == self.i_target@,
            res is Err ==> res->Err_0 == RafsError::NotFound,
    {
        if !self.is_symlink() {
            Err(RafsError::NotFound)
        } else {
            let t = copy_range(self.i_target.as_slice(), 0, self.i_target.len());
            assert(t@ =~= self.i_target@);
            Ok(t)
        }
    }

    /// The child with the name `name`, found by binary search over the names of the
    /// children. Fails with `NotADirectory` for anything but a directory. A result is
    /// always a child with that name. Where the children are sorted, the result is what a
    /// scan of the children from the first on finds, and `NotFound` exactly where none has
    /// that name.
    pub fn get_child_by_name(&self, name: &[u8]) -> (res: Result<Arc<MockInode>, RafsError>)
        ensures
            !self.spec_is_dir() ==> res == Err::<Arc<MockInode>, RafsError>(
                RafsError::NotADirectory,
            ),
            self.spec_is_dir() && res is Ok ==> exists|i: int|
                0 <= i < self.i_child@.len() && #[trigger] self.i_child@[i] == res->Ok_0
                    && self.i_child@[i].i_name@ == name@,
            self.spec_is_dir() && res is Err ==> res->Err_0 == RafsError::NotFound,
            self.spec_is_dir() && self.children_sorted() ==> match scan_from(
                self.child_names(),
                name@,
                0,
            ) {
                Some(i) => res == Ok::<Arc<MockInode>, RafsError>(self.i_child@[i]),
                None => res == Err::<Arc<MockInode>, RafsError>(RafsError::NotFound),
            },
    {
        if !self.is_dir() {
            return Err(RafsError::NotADirectory);
        }
        let ghost names = self.child_names();
        let mut lo: usize = 0;
        let mut hi: usize = self.i_child.len();
        while lo < hi
            invariant
                lo <= hi <= self.i_child@.len(),
                names == self.child_names(),
                self.spec_is_dir(),
                self.children_sorted() ==> forall|j: int| 0 <= j < lo ==> names[j] != name@,
                self.children_sorted() ==> forall|j: int|
                    hi <= j < names.len() ==> names[j] != name@,
            decreases hi - lo,
        {
            let mid = lo + (hi - lo) / 2;
            let c = &self.i_child[mid];
            assert(c.i_name@ == names[mid as int]);
            match compare_names(c.i_name.as_slice(), name) {
                NameOrder::Same => {
                    proof {
                        if self.children_sorted() {
                            assert forall|j: int| 0 <= j < mid implies names[j] != name@ by {
                                assert(name_lt(names[j], names[mid as int]));
                                lemma_name_lt_irreflexive(name@);
                            }
                            lemma_scan_finds(names, name@, 0, mid as int);
                        }
                    }
                    return Ok(share(c));
                },
                NameOrder::Before => {
                    proof {
                        if self.children_sorted() {
                            assert forall|j: int| 0 <= j < mid + 1 implies names[j] != name@ by {
                                if j < mid {
                                    assert(name_lt(names[j], names[mid as int]));
                                    if names[j] == name@ {
                                        lemma_name_lt_asymmetric(names[mid as int], name@);
                                    }
                                } else {
                                    lemma_name_lt_irreflexive(name@);
                                }
                            }
                        }
                    }
                    lo = mid + 1;
                },
                NameOrder::After => {
                    proof {
                        if self.children_sorted() {
                            assert forall|j: int| mid <= j < names.len() implies names[j]
                                != name@ by {
                                if j > mid {
                                    assert(name_lt(names[mid as int], names[j]));
                                    if names[j] == name@ {
                                        lemma_name_lt_asymmetric(name@, names[mid as int]);
                                    }
                                } else {
                                    lemma_name_lt_irreflexive(name@);
                                }
                            }
                        }
                    }
                    hi = mid;
                },
            }
        }
        proof {
            if self.children_sorted() {
                lemma_scan_misses(names, name@, 0);
            }
        }
        Err(RafsError::NotFound)
    }

    /// The child at position `index`. Fails with `OutOfRange` exactly where the inode has
    /// no such child.
    pub fn get_child_by_index(&self, index: u64) -> (res: Result<Arc<MockInode>, RafsError>)
        ensures
            res is Ok <==> index < self.i_child@.len(),
            res is Ok ==> res->Ok_0 == self.i_child@[index as int],
            res is Err ==> res->Err_0 == RafsError::OutOfRange,
    {
        if index >= self.i_child.len() as u64 {
            return Err(RafsError::OutOfRange);
        }
        Ok(share(&self.i_child[index as usize]))
    }

    /// The table index that the inode records for its first child.
    pub fn get_child_index(&self) -> (res: Result<u32, RafsError>)
        ensures
            res == Ok::<u32, RafsError>(self.i_child_idx),
    {
        Ok(self.i_child_idx)
    }

    /// The chunk at position `idx`. Fails with `NotRegularFile` for anything but a
    /// regular file, and with `OutOfRange` exactly where the file has no such chunk.
    pub fn get_chunk_info(&self, idx: u32) -> (res: Result<Arc<MockChunkInfo>, RafsError>)
        ensures
            !self.spec_is_reg() ==> res == Err::<Arc<MockChunkInfo>, RafsError>(
                RafsError::NotRegularFile,
            ),
            self.spec_is_reg() ==> (res is Ok <==> idx < self.i_data@.len()),
            self.spec_is_reg() && res is Ok ==> res->Ok_0 == self.i_data@[idx as int],
            self.spec_is_reg() && res is Err ==> res->Err_0 == RafsError::OutOfRange,
    {
        if !self.is_reg() {
            return Err(RafsError::NotRegularFile);
        }
        if idx as usize >= self.i_data.len() {
            return Err(RafsError::OutOfRange);
        }
        Ok(share(&self.i_data[idx as usize]))
    }

    /// The position of the first extended attribute at or behind `k` whose name is
    /// `name`.
    pub open spec fn xattr_from(&self, name: Seq<u8>, k: int) -> Option<int>
        decreases self.i_xattr@.len() - k,
    {
        if k < 0 || k >= self.i_xattr@.len() {
            None
        } else if self.i_xattr@[k].0@ == name {
            Some(k)
        } else {
            self.xattr_from(name, k + 1)
        }
    }

    /// The value of the first extended attribute with the name `name`, or `None` where
    /// the inode has none of that name.
    pub fn get_xattr(&self, name: &[u8]) -> (res: Result<Option<Vec<u8>>, RafsError>)
        ensures
            res is Ok,
            match self.xattr_from(name@, 0) {
                Some(i) => res->Ok_0 is Some && res->Ok_0->0@ == self.i_xattr@[i].1@,
                None => res->Ok_0 is None,
            },
    {
        let n = self.i_xattr.len();
        let mut k: usize = 0;
        while k < n
            invariant
                k <= n,
                n == self.i_xattr@.len(),
                self.xattr_from(name@, 0) == self.xattr_from(name@, k as int),
            decreases n - k,
        {
            let pair = &self.i_xattr[k];
            if bytes_eq(pair.0.as_slice(), name) {
                let v = copy_range(pair.1.as_slice(), 0, pair.1.len());
                assert(v@ =~= pair.1@);
                return Ok(Some(v));
            }
            k = k + 1;
        }
        Ok(None)
    }

    /// The names of the extended attributes, in the order in which the inode holds them.
    pub fn get_xattrs(&self) -> (res: Result<Vec<Vec<u8>>, RafsError>)
        ensures
            res is Ok,
            res->Ok_0@.len() == self.i_xattr@.len(),
            forall|k: int|
                0 <= k < self.i_xattr@.len() ==> (#[trigger] res->Ok_0@[k])@ == self.i_xattr@[k].0@,
    {
        let n = self.i_xattr.len();
        let mut out: Vec<Vec<u8>> = Vec::new();
        let mut k: usize = 0;
        while k < n
            invariant
                k <= n,
                n == self.i_xattr@.len(),
                out@.len() == k,
                forall|j: int| 0 <= j < k ==> (#[trigger] out@[j])@ == self.i_xattr@[j].0@,
            decreases n - k,
        {
            let pair = &self.i_xattr[k];
            let name = copy_range(pair.0.as_slice(), 0, pair.0.len());
            assert(name@ =~= pair.0@);
            out.push(name);
            k = k + 1;
        }
        Ok(out)
    }

    /// The length of the name in bytes, cut to 16 bits.
    pub fn get_name_size(&self) -> (n: u16)
        ensures
            n == self.i_name@.len() % 0x10000,
    {
        (self.i_name.len() % 0x10000) as u16
    }

    /// The length of the target of a symbolic link, cut to 16 bits; zero for anything
    /// else.
    pub fn get_symlink_size(&self) -> (n: u16)
        ensures
            n == if self.spec_is_symlink() {
                self.i_target@.len() % 0x10000
            } else {
                0
            },
    {
        if self.is_symlink() {
            (self.i_target.len() % 0x10000) as u16
        } else {
            0
        }
    }

    /// The blob with index `idx`. An in-memory inode knows no blob table and answers
    /// with an entry that is zero and empty, whatever the index.
    pub fn get_blob_by_index(&self, idx: u32) -> (res: Result<Arc<RafsBlobEntry>, RafsError>)
        ensures
            res is Ok,
            res->Ok_0.blob_id@.len() == 0,
            res->Ok_0.chunk_count == 0 && res->Ok_0.readahead_offset == 0,
            res->Ok_0.readahead_size == 0 && res->Ok_0.blob_index == 0,
            res->Ok_0.blob_cache_size == 0 && res->Ok_0.compressed_blob_size == 0,
    {
        Ok(Arc::new(RafsBlobEntry::new()))
    }

    /// The size of the chunks of the file.
    pub fn get_blocksize(&self) -> (n: u32)
        ensures
            n == CHUNK_SIZE,
    {
        CHUNK_SIZE
    }

    /// Tells whether the file has holes; an in-memory file has none.
    pub fn has_hole(&self) -> (r: bool)
        ensures
            !r,
    {
        false
    }

    /// Appends to `descendants` everything below the directory that is no directory and
    /// not empty: the files of the directory itself in the order of its entries, then
    /// what lies below each of its subdirectories, in the same order. Empty files are
    /// left out. Fails with `NotADirectory`, appending nothing, for anything but a
    /// directory.
    pub fn collect_descendants_inodes(&self, descendants: &mut Vec<Arc<MockInode>>) -> (res:
        Result<usize, RafsError>)
        ensures
            self.spec_is_dir() ==> res == Ok::<usize, RafsError>(0) && final(descendants)@ == old(
                descendants,
            )@ + self.descendants(),
            !self.spec_is_dir() ==> res == Err::<usize, RafsError>(RafsError::NotADirectory)
                && final(descendants)@ == old(descendants)@,
        decreases self,
    {
        if !self.is_dir() {
            return Err(RafsError::NotADirectory);
        }
        let ghost start = descendants@;
        let n = self.i_child.len();
        let mut child_dirs: Vec<usize> = Vec::new();
        let mut k: usize = 0;
        while k < n
            invariant
                k <= n,
                n == self.i_child@.len(),
                descendants@ == start + files_among(self.i_child@, k as int),
                child_dirs@.len() == dirs_among(self.i_child@, k as int).len(),
                forall|j: int|
                    0 <= j < child_dirs@.len() ==> (#[trigger] child_dirs@[j]) as int
                        == dirs_among(self.i_child@, k as int)[j],
            decreases n - k,
        {
            let child_inode = &self.i_child[k];
            if child_inode.is_dir() {
                child_dirs.push(k);
            } else if !child_inode.is_empty_size() {
                descendants.push(share(child_inode));
            }
            k = k + 1;
            assert(descendants@ =~= start + files_among(self.i_child@, k as int));
        }
        let ghost files = files_among(self.i_child@, n as int);
        let ghost dirs = dirs_among(self.i_child@, n as int);
        let m = child_dirs.len();
        let mut d: usize = 0;
        proof {
            Self::lemma_below_by_dirs(self.i_child@, n as int);
        }
        while d < m
            invariant
                d <= m,
                m == dirs.len(),
                m == child_dirs@.len(),
                n == self.i_child@.len(),
                dirs == dirs_among(self.i_child@, n as int),
                forall|j: int| 0 <= j < m ==> (#[trigger] child_dirs@[j]) as int == dirs[j],
                forall|j: int|
                    0 <= j < m ==> 0 <= #[trigger] dirs[j] < n && mode_is_dir(
                        self.i_child@[dirs[j]].i_mode,
                    ),
                descendants@ == start + files + Self::below_dirs(self.i_child@, dirs, d as int),
            decreases m - d,
        {
            let idx = child_dirs[d];
            assert(idx as int == dirs[d as int]);
            let dir = &self.i_child[idx];
            let ghost before = descendants@;
            let done = dir.collect_descendants_inodes(descendants);
            d = d + 1;
            assert(descendants@ =~= start + files + Self::below_dirs(
                self.i_child@,
                dirs,
                d as int,
            ));
        }
        assert(descendants@ =~= start + self.descendants());
        Ok(0)
    }

    /// What lies below the first `d` of the directories `dirs` of `children`.
    pub open spec fn below_dirs(children: Seq<Arc<MockInode>>, dirs: Seq<int>, d: int) -> Seq<
        Arc<MockInode>,
    >
        decreases d,
    {
        if d <= 0 || d > dirs.len() {
            Seq::empty()
        } else if 0 <= dirs[d - 1] < children.len() {
            Self::below_dirs(children, dirs, d - 1) + children[dirs[d - 1]].descendants()
        } else {
            Self::below_dirs(children, dirs, d - 1)
        }
    }

    /// What lies below the directories among the first `k` children is what lies below
    /// them taken one by one.
    pub proof fn lemma_below_by_dirs(children: Seq<Arc<MockInode>>, k: int)
        requires
            0 <= k <= children.len(),
        ensures
            ({
                let dirs = dirs_among(children, k);
                &&& dirs.len() <= k
                &&& forall|j: int|
                    0 <= j < dirs.len() ==> 0 <= #[trigger] dirs[j] < k && mode_is_dir(
                        children[dirs[j]].i_mode,
                    )
                &&& Self::below(children, k) == Self::below_dirs(children, dirs, dirs.len() as int)
            }),
        decreases k,
    {
        if k > 0 {
            Self::lemma_below_by_dirs(children, k - 1);
            let prev = dirs_among(children, k - 1);
            let dirs = dirs_among(children, k);
            if mode_is_dir(children[k - 1].i_mode) {
                assert(dirs == prev.push(k - 1));
                Self::lemma_below_dirs_prefix(children, prev, dirs, prev.len() as int);
            }
        }
    }

    /// What lies below the first `d` directories does not depend on those behind them.
    pub proof fn lemma_below_dirs_prefix(
        children: Seq<Arc<MockInode>>,
        a: Seq<int>,
        b: Seq<int>,
        d: int,
    )
        requires
            0 <= d <= a.len() <= b.len(),
            forall|j: int| 0 <= j < d ==> a[j] == b[j],
        ensures
            Self::below_dirs(children, a, d) == Self::below_dirs(children, b, d),
        decreases d,
    {
        if d > 0 {
            Self::lemma_below_dirs_prefix(children, a, b, d - 1);
        }
    }
}

impl Default for MockInode {
    /// An inode with every field zero or empty.
    fn default() -> (i: Self)
        ensures
            i.blank_but_for_data(),
            i.i_ino == 0 && i.i_mode == 0 && i.i_size == 0 && i.i_child_cnt == 0,
            i.i_blksize == 0 && i.i_data@.len() == 0,
    {
        MockInode::new()
    }
}

} // verus!
