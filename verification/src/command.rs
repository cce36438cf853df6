//! The read-only queries of the inspection shell. Each one computes a structured result
//! from the open bootstrap and the current directory; printing is left to the caller.

use vstd::prelude::*;
use crate::bytes::copy_range;
use crate::chunk::RafsV5ChunkInfo;
use crate::error::RafsError;
use crate::inode::RafsV5Inode;
use crate::inspect::{chunks_of, RafsInspector};
use crate::layout::RafsV5SuperBlock;
use crate::path::path_join;
use crate::reader::RafsIoReader;
use crate::table::{u32_array_at, RafsV5PrefetchTable};
use crate::visitor::{
    entry_views, CollectEntries, DirEntry, EntryFilter, EntryView, FindByName, Hit,
};

verus! {

/// The mathematical values of the items of a sequence.
pub open spec fn views_of<T: View>(s: Seq<T>) -> Seq<T::V> {
    Seq::new(s.len(), |i: int| s[i]@)
}

/// What the superblock says of the image as a whole.
#[derive(Clone, Copy, Debug, PartialEq, Eq, Structural)]
pub struct Stats {
    pub version: u32,
    pub inodes_count: u64,
    pub flags: u64,
}

/// What is known of one inode.
#[derive(Clone, Debug, PartialEq, Eq)]
pub struct FileStat {
    pub name: Vec<u8>,
    pub inode: RafsV5Inode,
    /// The table index of the inode.
    pub index: usize,
}

impl View for FileStat {
    type V = (Seq<u8>, RafsV5Inode, int);

    open spec fn view(&self) -> (Seq<u8>, RafsV5Inode, int) {
        (self.name@, self.inode, self.index as int)
    }
}

/// A chunk and the identifier of the blob that holds it.
#[derive(Clone, Debug, PartialEq, Eq)]
pub struct ChunkStat {
    pub chunk: RafsV5ChunkInfo,
    pub blob_id: Vec<u8>,
}

impl View for ChunkStat {
    type V = (RafsV5ChunkInfo, Seq<u8>);

    open spec fn view(&self) -> (RafsV5ChunkInfo, Seq<u8>) {
        (self.chunk, self.blob_id@)
    }
}

/// What is known of one file: its inode and its chunks.
#[derive(Clone, Debug, PartialEq, Eq)]
pub struct StatReport {
    pub stat: FileStat,
    pub chunks: Vec<ChunkStat>,
}

impl View for StatReport {
    type V = ((Seq<u8>, RafsV5Inode, int), Seq<(RafsV5ChunkInfo, Seq<u8>)>);

    open spec fn view(&self) -> ((Seq<u8>, RafsV5Inode, int), Seq<(RafsV5ChunkInfo, Seq<u8>)>) {
        (self.stat@, views_of(self.chunks@))
    }
}

/// How a change of the current directory ended.
#[derive(Clone, Copy, Debug, PartialEq, Eq, Structural)]
pub enum ChangeDir {
    /// The current directory is what it was.
    Stayed,
    /// The current directory is the one that was left last.
    Left,
    /// The current directory is the entry that was named.
    Entered,
    /// The current directory has no entry of that name.
    NoSuchFile,
    /// The entry of that name is no directory.
    NotADirectory,
}

/// One line of a directory listing: which kind of file an entry is.
#[derive(Clone, Copy, Debug, PartialEq, Eq, Structural)]
pub enum EntryKind {
    Regular,
    Directory,
    Symlink,
    Other,
}

/// The kind of file that `inode` is.
pub open spec fn kind_of(inode: RafsV5Inode) -> EntryKind {
    if inode.spec_is_reg() {
        EntryKind::Regular
    } else if inode.spec_is_dir() {
        EntryKind::Directory
    } else if inode.spec_is_symlink() {
        EntryKind::Symlink
    } else {
        EntryKind::Other
    }
}

/// Tells which kind of file `inode` is.
pub fn entry_kind(inode: &RafsV5Inode) -> (k: EntryKind)
    ensures
        k == kind_of(*inode),
{
    if inode.is_reg() {
        EntryKind::Regular
    } else if inode.is_dir() {
        EntryKind::Directory
    } else if inode.is_symlink() {
        EntryKind::Symlink
    } else {
        EntryKind::Other
    }
}

/// What the tables say of one blob.
#[derive(Clone, Debug, PartialEq, Eq)]
pub struct BlobReport {
    pub blob_id: Vec<u8>,
    pub readahead_offset: u32,
    pub readahead_size: u32,
    /// Size of the blob once decompressed; `None` without an extended blob table.
    pub decompressed_size: Option<u64>,
    /// Size of the blob as stored; `None` without an extended blob table.
    pub compressed_size: Option<u64>,
}

/// An inode that the prefetch table names, and its path.
#[derive(Clone, Debug, PartialEq, Eq)]
pub struct PrefetchEntry {
    pub inode: u32,
    pub path: Vec<u8>,
}

impl View for PrefetchEntry {
    type V = (u32, Seq<u8>);

    open spec fn view(&self) -> (u32, Seq<u8>) {
        (self.inode, self.path@)
    }
}

/// A chunk that lies at a given offset of its blob, and the file it belongs to.
#[derive(Clone, Debug, PartialEq, Eq)]
pub struct ChunkMatch {
    /// The name of the file.
    pub name: Vec<u8>,
    /// The path of the directory that holds the file.
    pub parent_path: Vec<u8>,
    pub chunk: RafsV5ChunkInfo,
    /// The identifier of the blob that holds the chunk.
    pub blob_id: Vec<u8>,
}

impl View for ChunkMatch {
    type V = (Seq<u8>, Seq<u8>, RafsV5ChunkInfo, Seq<u8>);

    open spec fn view(&self) -> (Seq<u8>, Seq<u8>, RafsV5ChunkInfo, Seq<u8>) {
        (self.name@, self.parent_path@, self.chunk, self.blob_id@)
    }
}

/// An entry of the tree with a given inode number, and its path.
#[derive(Clone, Debug, PartialEq, Eq)]
pub struct InodeReport {
    pub path: Vec<u8>,
    pub stat: FileStat,
}

impl View for InodeReport {
    type V = (Seq<u8>, (Seq<u8>, RafsV5Inode, int));

    open spec fn view(&self) -> (Seq<u8>, (Seq<u8>, RafsV5Inode, int)) {
        (self.path@, self.stat@)
    }
}

/// The chunks of `chunks` that lie at the offset `target` of their blob, in order.
pub open spec fn chunks_at(chunks: Seq<RafsV5ChunkInfo>, target: u64) -> Seq<RafsV5ChunkInfo>
    decreases chunks.len(),
{
    if chunks.len() == 0 {
        Seq::empty()
    } else if chunks.last().compress_offset == target {
        chunks_at(chunks.drop_last(), target).push(chunks.last())
    } else {
        chunks_at(chunks.drop_last(), target)
    }
}

/// Selects the chunks that lie at the offset `target` of their blob.
pub fn select_chunks(chunks: &Vec<RafsV5ChunkInfo>, target: u64) -> (hits: Vec<RafsV5ChunkInfo>)
    ensures
        hits@ == chunks_at(chunks@, target),
{
    let mut hits: Vec<RafsV5ChunkInfo> = Vec::new();
    let mut k: usize = 0;
    assert(chunks@.subrange(0, 0) =~= Seq::<RafsV5ChunkInfo>::empty());
    while k < chunks.len()
        invariant
            k <= chunks@.len(),
            hits@ == chunks_at(chunks@.subrange(0, k as int), target),
        decreases chunks@.len() - k,
    {
        proof {
            let next = chunks@.subrange(0, k + 1);
            assert(next.drop_last() =~= chunks@.subrange(0, k as int));
            assert(next.last() == chunks@[k as int]);
        }
        if chunks[k].compress_offset == target {
            hits.push(chunks[k]);
        }
        k = k + 1;
    }
    assert(chunks@.subrange(0, k as int) =~= chunks@);
    hits
}

impl RafsInspector {
    /// What the superblock of the bootstrap says of the image.
    pub open spec fn stats(&self) -> Result<Stats, RafsError> {
        if self.layout_profile.super_block_offset + 8192 > self.bootstrap@.len() {
            Err(RafsError::CorruptFormat)
        } else {
            let sb = RafsV5SuperBlock::decoded(
                self.bootstrap@,
                self.layout_profile.super_block_offset as int,
            );
            Ok(
                Stats {
                    version: sb.s_fs_version,
                    inodes_count: sb.s_inodes_count,
                    flags: sb.s_flags,
                },
            )
        }
    }

    /// Decodes the superblock anew and returns the format version, the number of inodes
    /// and the global flags.
    pub fn cmd_stats(&self) -> (res: Result<Stats, RafsError>)
        ensures
            res == self.stats(),
    {
        let mut bootstrap = RafsIoReader::new(self.bootstrap.as_slice());
        let sb = match Self::super_block(&mut bootstrap, &self.layout_profile) {
            Ok(sb) => sb,
            Err(e) => {
                return Err(e);
            },
        };
        Ok(Stats { version: sb.version(), inodes_count: sb.inodes_count(), flags: sb.flags() })
    }

    /// The entries of the current directory, in table order.
    pub open spec fn listing(&self) -> Result<Seq<EntryView>, RafsError> {
        let out = self.dir_entries::<CollectEntries>(
            self.cur_dir_index as int,
            0x1_0000_0000,
            (EntryFilter::All, Seq::empty()),
        );
        match out.error {
            Some(e) => Err(e),
            None => Ok(out.state.1),
        }
    }

    /// The entries of the current directory, in table order. Fails as the iteration over
    /// the current directory does.
    pub fn cmd_list_dir(&self) -> (res: Result<Vec<DirEntry>, RafsError>)
        ensures
            match self.listing() {
                Err(e) => res == Err::<Vec<DirEntry>, RafsError>(e),
                Ok(entries) => res is Ok && entry_views(res->Ok_0@) == entries,
            },
    {
        let mut collector = CollectEntries::new(EntryFilter::All);
        match self.iter_dir(&mut collector) {
            Ok(()) => Ok(collector.entries),
            Err(e) => Err(e),
        }
    }

    /// The inode with table index `index` and its name.
    pub fn cmd_stat_file_by_index(&self, index: usize) -> (res: Result<FileStat, RafsError>)
        ensures
            res is Ok <==> self.inode_by_index(index as int) is Ok,
            res is Ok ==> res->Ok_0@ == (
                self.inode_by_index(index as int)->Ok_0.1,
                self.inode_by_index(index as int)->Ok_0.0,
                index as int,
            ),
            res is Err ==> res->Err_0 == self.inode_by_index(index as int)->Err_0,
    {
        let (inode, name) = match self.load_inode_by_index(index) {
            Ok(found) => found,
            Err(e) => {
                return Err(e);
            },
        };
        Ok(FileStat { name, inode, index })
    }

    /// The first entry of the current directory whose name is `name`, or `None` where
    /// there is none.
    pub open spec fn lookup(&self, name: Seq<u8>) -> Result<Option<Hit>, RafsError> {
        let out = self.dir_entries::<FindByName>(
            self.cur_dir_index as int,
            0x1_0000_0000,
            (name, None),
        );
        match out.error {
            Some(e) => Err(e),
            None => Ok(out.state.1),
        }
    }

    /// Looks for the first entry of the current directory whose name is `name`.
    pub fn find_entry(&self, name: &[u8]) -> (res: Result<Option<Hit>, RafsError>)
        ensures
            res == self.lookup(name@),
    {
        let mut finder = FindByName::new(name);
        match self.iter_dir(&mut finder) {
            Ok(()) => Ok(finder.hit),
            Err(e) => Err(e),
        }
    }

    /// Whether `after` and `res` are what a change to the entry `name` makes of `self`.
    /// The name `.` changes nothing; the name `..` goes back to the directory that was
    /// left last, if one was; any other name enters the first entry of that name where it
    /// is a directory. The bootstrap and its tables are never touched.
    pub open spec fn changed_dir(
        &self,
        after: &RafsInspector,
        name: Seq<u8>,
        res: Result<ChangeDir, RafsError>,
    ) -> bool {
        &&& after.bootstrap == self.bootstrap
        &&& after.request_mode == self.request_mode
        &&& after.layout_profile == self.layout_profile
        &&& after.rafs_meta == self.rafs_meta
        &&& after.inodes_table == self.inodes_table
        &&& after.blobs_table == self.blobs_table
        &&& after.extended_blobs_table == self.extended_blobs_table
        &&& if name == seq![0x2eu8] {
            res == Ok::<ChangeDir, RafsError>(ChangeDir::Stayed)
        } else if name == seq![0x2eu8, 0x2eu8] {
            if self.parent_indexes@.len() > 0 {
                res == Ok::<ChangeDir, RafsError>(ChangeDir::Left)
            } else {
                res == Ok::<ChangeDir, RafsError>(ChangeDir::Stayed)
            }
        } else {
            match self.lookup(name) {
                Err(e) => res == Err::<ChangeDir, RafsError>(e),
                Ok(None) => res == Ok::<ChangeDir, RafsError>(ChangeDir::NoSuchFile),
                Ok(Some(hit)) => if hit.inode.spec_is_dir() {
                    &&& res == Ok::<ChangeDir, RafsError>(ChangeDir::Entered)
                    &&& after.cur_dir_index == hit.index
                } else {
                    res == Ok::<ChangeDir, RafsError>(ChangeDir::NotADirectory)
                },
            }
        }
        &&& match res {
            Ok(ChangeDir::Left) => {
                &&& self.parent_indexes@.len() > 0
                &&& after.cur_dir_index == self.parent_indexes@.last()
                &&& after.parent_indexes@ == self.parent_indexes@.drop_last()
            },
            Ok(ChangeDir::Entered) => after.parent_indexes@ == self.parent_indexes@.push(
                self.cur_dir_index,
            ),
            _ => {
                &&& after.cur_dir_index == self.cur_dir_index
                &&& after.parent_indexes@ == self.parent_indexes@
            },
        }
    }

    /// A change of directory leaves an inspector whose tables are those of its bootstrap
    /// as it is in that respect.
    pub proof fn lemma_change_dir_keeps_wf(
        &self,
        after: &RafsInspector,
        name: Seq<u8>,
        res: Result<ChangeDir, RafsError>,
    )
        requires
            self.wf(),
            self.changed_dir(after, name, res),
        ensures
            after.wf(),
    {
    }

    /// Makes the entry `name` of the current directory the current directory. The name
    /// `.` changes nothing; the name `..` goes back to the directory that was left last,
    /// if one was. Nothing changes either where the current directory has no such entry,
    /// where the entry is no directory, or where the lookup fails.
    pub fn cmd_change_dir(&mut self, name: &[u8]) -> (res: Result<ChangeDir, RafsError>)
        ensures
            old(self).changed_dir(final(self), name@, res),
    {
        if name.len() == 1 && name[0] == 0x2e {
            assert(name@ =~= seq![0x2eu8]);
            return Ok(ChangeDir::Stayed);
        }
        if name.len() == 2 && name[0] == 0x2e && name[1] == 0x2e {
            assert(name@ =~= seq![0x2eu8, 0x2eu8]);
            return match self.parent_indexes.pop() {
                Some(p) => {
                    self.cur_dir_index = p;
                    Ok(ChangeDir::Left)
                },
                None => Ok(ChangeDir::Stayed),
            };
        }
        assert(name@ != seq![0x2eu8]) by {
            if name@.len() == 1 {
                assert(name@[0] != seq![0x2eu8][0]);
            }
        }
        assert(name@ != seq![0x2eu8, 0x2eu8]) by {
            if name@.len() == 2 {
                assert(name@[0] != seq![0x2eu8, 0x2eu8][0] || name@[1] != seq![0x2eu8, 0x2eu8][1]);
            }
        }
        let hit = match self.find_entry(name) {
            Ok(Some(hit)) => hit,
            Ok(None) => {
                return Ok(ChangeDir::NoSuchFile);
            },
            Err(e) => {
                return Err(e);
            },
        };
        if !hit.inode.is_dir() {
            return Ok(ChangeDir::NotADirectory);
        }
        self.parent_indexes.push(self.cur_dir_index);
        self.cur_dir_index = hit.index;
        Ok(ChangeDir::Entered)
    }

    /// What the tables say of the blob at position `k` of the blob table.
    pub open spec fn blob_report(&self, k: int) -> (
        Seq<u8>,
        u32,
        u32,
        Option<u64>,
        Option<u64>,
    ) {
        let b = self.blobs_table.entries@[k];
        let known = self.extended_blobs_table is Some && k < self.extended_blobs_table->0@.len();
        (
            b.blob_id@,
            b.readahead_offset,
            b.readahead_size,
            if known {
                Some(self.extended_blobs_table->0@[k].blob_cache_size)
            } else {
                None
            },
            if known {
                Some(self.extended_blobs_table->0@[k].compressed_blob_size)
            } else {
                None
            },
        )
    }

    /// Whether `reports` holds what the tables say of every blob, in table order.
    pub open spec fn blob_reports(&self, reports: Seq<BlobReport>) -> bool {
        &&& reports.len() == self.blobs_table.entries@.len()
        &&& forall|k: int|
            0 <= k < reports.len() ==> (
                (#[trigger] reports[k]).blob_id@,
                reports[k].readahead_offset,
                reports[k].readahead_size,
                reports[k].decompressed_size,
                reports[k].compressed_size,
            ) == self.blob_report(k)
    }

    /// The blobs of the image in table order, each with its sizes where the extended blob
    /// table holds an entry for it.
    pub fn cmd_list_blobs(&self) -> (res: Vec<BlobReport>)
        ensures
            self.blob_reports(res@),
    {
        let n = self.blobs_table.entries.len();
        let mut out: Vec<BlobReport> = Vec::new();
        let mut i: usize = 0;
        while i < n
            invariant
                i <= n,
                n == self.blobs_table.entries@.len(),
                out@.len() == i,
                forall|k: int|
                    0 <= k < i ==> (
                        (#[trigger] out@[k]).blob_id@,
                        out@[k].readahead_offset,
                        out@[k].readahead_size,
                        out@[k].decompressed_size,
                        out@[k].compressed_size,
                    ) == self.blob_report(k),
            decreases n - i,
        {
            let b = &self.blobs_table.entries[i];
            let (decompressed_size, compressed_size) = match &self.extended_blobs_table {
                Some(et) => if i < et.entries.len() {
                    (
                        Some(et.entries[i].blob_cache_size),
                        Some(et.entries[i].compressed_blob_size),
                    )
                } else {
                    (None, None)
                },
                None => (None, None),
            };
            let id = copy_range(b.blob_id.as_slice(), 0, b.blob_id.len());
            assert(id@ =~= b.blob_id@);
            out.push(
                BlobReport {
                    blob_id: id,
                    readahead_offset: b.readahead_offset,
                    readahead_size: b.readahead_size,
                    decompressed_size,
                    compressed_size,
                },
            );
            i = i + 1;
        }
        out
    }

    /// The chunks `chunks` with the identifiers of their blobs, or `NotFound` where the
    /// blob table has no entry for one of them.
    pub open spec fn chunk_stats(&self, chunks: Seq<RafsV5ChunkInfo>) -> Result<
        Seq<(RafsV5ChunkInfo, Seq<u8>)>,
        RafsError,
    > {
        if forall|k: int|
            0 <= k < chunks.len() ==> (#[trigger] chunks[k]).blob_index
                < self.blobs_table.entries@.len() {
            Ok(
                Seq::new(
                    chunks.len(),
                    |k: int| (chunks[k], self.blobs_table.entries@[chunks[k].blob_index as int].blob_id@),
                ),
            )
        } else {
            Err(RafsError::NotFound)
        }
    }

    /// Looks up the blob of every chunk of `chunks`.
    pub fn resolve_blobs(&self, chunks: &Vec<RafsV5ChunkInfo>) -> (res: Result<
        Vec<ChunkStat>,
        RafsError,
    >)
        ensures
            res is Ok <==> self.chunk_stats(chunks@) is Ok,
            res is Ok ==> views_of(res->Ok_0@) == self.chunk_stats(chunks@)->Ok_0,
            res is Err ==> res->Err_0 == RafsError::NotFound,
    {
        let mut out: Vec<ChunkStat> = Vec::new();
        let mut k: usize = 0;
        while k < chunks.len()
            invariant
                k <= chunks@.len(),
                out@.len() == k,
                forall|j: int|
                    0 <= j < k ==> (#[trigger] chunks@[j]).blob_index
                        < self.blobs_table.entries@.len(),
                forall|j: int|
                    0 <= j < k ==> (#[trigger] out@[j])@ == (
                        chunks@[j],
                        self.blobs_table.entries@[chunks@[j].blob_index as int].blob_id@,
                    ),
            decreases chunks@.len() - k,
        {
            let c = chunks[k];
            let blob = match self.blobs_table.get(c.blob_index) {
                Ok(blob) => blob,
                Err(e) => {
                    assert(!(chunks@[k as int].blob_index < self.blobs_table.entries@.len()));
                    return Err(e);
                },
            };
            let id = copy_range(blob.blob_id.as_slice(), 0, blob.blob_id.len());
            assert(id@ =~= blob.blob_id@);
            out.push(ChunkStat { chunk: c, blob_id: id });
            k = k + 1;
        }
        assert(views_of(out@) =~= self.chunk_stats(chunks@)->Ok_0);
        Ok(out)
    }

    /// What is known of the file `name` of the current directory: `None` where the
    /// current directory has no such entry; for the name `.` the current directory
    /// itself, without chunks; else the first entry of that name with its chunks and
    /// their blobs.
    pub open spec fn stat_of(&self, name: Seq<u8>) -> Result<
        Option<((Seq<u8>, RafsV5Inode, int), Seq<(RafsV5ChunkInfo, Seq<u8>)>)>,
        RafsError,
    > {
        if name == seq![0x2eu8] {
            match self.inode_by_index(self.cur_dir_index as int) {
                Err(e) => Err(e),
                Ok((inode, own)) => Ok(
                    Some(((own, inode, self.cur_dir_index as int), Seq::empty())),
                ),
            }
        } else {
            match self.lookup(name) {
                Err(e) => Err(e),
                Ok(None) => Ok(None),
                Ok(Some(hit)) => match chunks_of(self.bootstrap@, hit.inode, hit.offset as int) {
                    Err(e) => Err(e),
                    Ok(None) => Ok(Some(((name, hit.inode, hit.index as int), Seq::empty()))),
                    Ok(Some(chunks)) => match self.chunk_stats(chunks) {
                        Err(e) => Err(e),
                        Ok(stats) => Ok(Some(((name, hit.inode, hit.index as int), stats))),
                    },
                },
            }
        }
    }

    /// What is known of the file `name` of the current directory, see `stat_of`. Fails
    /// with the error of the lookup or of the decoding of the chunks, and with
    /// `NotFound` where the blob table has no entry for one of the chunks.
    pub fn cmd_stat_file(&self, name: &[u8]) -> (res: Result<Option<StatReport>, RafsError>)
        ensures
            res is Ok <==> self.stat_of(name@) is Ok,
            res is Ok ==> match self.stat_of(name@)->Ok_0 {
                Some(report) => res->Ok_0 is Some && res->Ok_0->0@ == report,
                None => res->Ok_0 is None,
            },
            res is Err ==> res->Err_0 == self.stat_of(name@)->Err_0,
    {
        if name.len() == 1 && name[0] == 0x2e {
            assert(name@ =~= seq![0x2eu8]);
            let (dir_inode, own) = match self.load_inode_by_index(self.cur_dir_index as usize) {
                Ok(found) => found,
                Err(e) => {
                    return Err(e);
                },
            };
            let report = StatReport {
                stat: FileStat { name: own, inode: dir_inode, index: self.cur_dir_index as usize },
                chunks: Vec::new(),
            };
            assert(views_of(report.chunks@) =~= Seq::<(RafsV5ChunkInfo, Seq<u8>)>::empty());
            return Ok(Some(report));
        }
        assert(name@ != seq![0x2eu8]) by {
            if name@.len() == 1 {
                assert(name@[0] != seq![0x2eu8][0]);
            }
        }
        let hit = match self.find_entry(name) {
            Ok(Some(hit)) => hit,
            Ok(None) => {
                return Ok(None);
            },
            Err(e) => {
                return Err(e);
            },
        };
        let mut bootstrap = RafsIoReader::new(self.bootstrap.as_slice());
        let chunks = match Self::list_chunks(&mut bootstrap, &hit.inode, hit.offset) {
            Ok(Some(chunks)) => chunks,
            Ok(None) => Vec::new(),
            Err(e) => {
                return Err(e);
            },
        };
        let stats = match self.resolve_blobs(&chunks) {
            Ok(stats) => stats,
            Err(e) => {
                return Err(e);
            },
        };
        let own = copy_range(name, 0, name.len());
        assert(own@ =~= name@);
        proof {
            if chunks_of(self.bootstrap@, hit.inode, hit.offset as int)->Ok_0 is None {
                assert(views_of(stats@) =~= Seq::<(RafsV5ChunkInfo, Seq<u8>)>::empty());
            }
        }
        Ok(
            Some(
                StatReport {
                    stat: FileStat { name: own, inode: hit.inode, index: hit.index as usize },
                    chunks: stats,
                },
            ),
        )
    }

    /// The inode numbers that the prefetch table of the superblock holds, in their
    /// stored order. `CorruptFormat` where a table with entries does not lie inside the
    /// stream.
    pub open spec fn prefetch_inodes(&self) -> Result<Seq<u32>, RafsError> {
        let entries = self.rafs_meta.prefetch_table_entries;
        let offset = self.rafs_meta.prefetch_table_offset;
        if entries == 0 {
            Ok(Seq::empty())
        } else if offset + 4 * entries > self.bootstrap@.len() {
            Err(RafsError::CorruptFormat)
        } else {
            Ok(u32_array_at(self.bootstrap@, offset as int, entries as nat))
        }
    }

    /// The inode numbers of `inos` from position `k` on with their paths, behind `acc`.
    /// The first path that cannot be found ends the list with its error.
    pub open spec fn paths_from(&self, inos: Seq<u32>, k: int, acc: Seq<(u32, Seq<u8>)>) -> Result<
        Seq<(u32, Seq<u8>)>,
        RafsError,
    >
        decreases inos.len() - k,
    {
        if k < 0 || k >= inos.len() {
            Ok(acc)
        } else {
            match self.path_components(inos[k] as u64, self.inodes_table@.len()) {
                Err(e) => Err(e),
                Ok(names) => self.paths_from(inos, k + 1, acc.push((inos[k], path_join(names)))),
            }
        }
    }

    /// The inodes that the prefetch table names, in the order of the table, each with its
    /// path.
    pub fn cmd_list_prefetch(&self) -> (res: Result<Vec<PrefetchEntry>, RafsError>)
        ensures
            match self.prefetch_inodes() {
                Err(e) => res == Err::<Vec<PrefetchEntry>, RafsError>(e),
                Ok(inos) => match self.paths_from(inos, 0, Seq::empty()) {
                    Err(e) => res == Err::<Vec<PrefetchEntry>, RafsError>(e),
                    Ok(paths) => res is Ok && views_of(res->Ok_0@) == paths,
                },
            },
    {
        let mut pt = RafsV5PrefetchTable::new();
        let mut bootstrap = RafsIoReader::new(self.bootstrap.as_slice());
        match pt.load_prefetch_table_from(
            &mut bootstrap,
            self.rafs_meta.prefetch_table_offset,
            self.rafs_meta.prefetch_table_entries as usize,
        ) {
            Ok(_) => {},
            Err(e) => {
                return Err(e);
            },
        }
        let ghost inos = pt@;
        assert(inos =~= self.prefetch_inodes()->Ok_0);
        let mut out: Vec<PrefetchEntry> = Vec::new();
        let ghost goal = self.paths_from(inos, 0, Seq::empty());
        assert(views_of(out@) =~= Seq::<(u32, Seq<u8>)>::empty());
        let mut k: usize = 0;
        while k < pt.inodes.len()
            invariant
                k <= inos.len(),
                inos == pt@,
                self.prefetch_inodes() == Ok::<Seq<u32>, RafsError>(inos),
                goal == self.paths_from(inos, 0, Seq::empty()),
                goal == self.paths_from(inos, k as int, views_of(out@)),
            decreases inos.len() - k,
        {
            let ino = pt.inodes[k];
            let path = match self.path_from_ino(ino as u64) {
                Ok(path) => path,
                Err(e) => {
                    return Err(e);
                },
            };
            let ghost before = views_of(out@);
            let ghost view = (ino, path@);
            out.push(PrefetchEntry { inode: ino, path });
            assert(views_of(out@) =~= before.push(view));
            k = k + 1;
        }
        Ok(out)
    }

    /// The chunks of the file `e` that lie at the offset `target` of their blob, each
    /// with the name of the file, the path of its directory and the identifier of its
    /// blob. A file without such a chunk contributes nothing and asks for no path.
    pub open spec fn file_matches(&self, e: EntryView, target: u64) -> Result<
        Seq<(Seq<u8>, Seq<u8>, RafsV5ChunkInfo, Seq<u8>)>,
        RafsError,
    > {
        match chunks_of(self.bootstrap@, e.inode, e.offset as int) {
            Err(x) => Err(x),
            Ok(None) => Ok(Seq::empty()),
            Ok(Some(chunks)) => {
                let hits = chunks_at(chunks, target);
                if hits.len() == 0 {
                    Ok(Seq::empty())
                } else {
                    match self.path_components(e.inode.i_parent, self.inodes_table@.len()) {
                        Err(x) => Err(x),
                        Ok(names) => match self.chunk_stats(hits) {
                            Err(x) => Err(x),
                            Ok(stats) => Ok(
                                Seq::new(
                                    stats.len(),
                                    |k: int| (e.name, path_join(names), stats[k].0, stats[k].1),
                                ),
                            ),
                        },
                    }
                }
            },
        }
    }

    /// The matches of the files of `entries` from position `k` on, behind `acc`. The
    /// first file that fails ends the list with its error.
    pub open spec fn matches_from(
        &self,
        entries: Seq<EntryView>,
        k: int,
        target: u64,
        acc: Seq<(Seq<u8>, Seq<u8>, RafsV5ChunkInfo, Seq<u8>)>,
    ) -> Result<Seq<(Seq<u8>, Seq<u8>, RafsV5ChunkInfo, Seq<u8>)>, RafsError>
        decreases entries.len() - k,
    {
        if k < 0 || k >= entries.len() {
            Ok(acc)
        } else {
            match self.file_matches(entries[k], target) {
                Err(x) => Err(x),
                Ok(found) => self.matches_from(entries, k + 1, target, acc + found),
            }
        }
    }

    /// Every chunk of every regular file of the tree that lies at the offset `target` of
    /// its blob, in the order in which a walk from the root meets the files.
    pub open spec fn chunk_matches(&self, target: u64) -> Result<
        Seq<(Seq<u8>, Seq<u8>, RafsV5ChunkInfo, Seq<u8>)>,
        RafsError,
    > {
        let end = self.walk_from::<CollectEntries>(
            seq![0u32],
            (EntryFilter::Regular, Seq::empty()),
            self.inodes_table@.len() as int,
        );
        match end.1 {
            Some(e) => Err(e),
            None => self.matches_from(end.0.1, 0, target, Seq::empty()),
        }
    }

    /// The matches of one file, see `file_matches`.
    fn matches_of_file(&self, entry: &DirEntry, target: u64) -> (res: Result<
        Vec<ChunkMatch>,
        RafsError,
    >)
        ensures
            match self.file_matches(entry@, target) {
                Err(e) => res == Err::<Vec<ChunkMatch>, RafsError>(e),
                Ok(found) => res is Ok && views_of(res->Ok_0@) == found,
            },
    {
        let mut out: Vec<ChunkMatch> = Vec::new();
        assert(views_of(out@) =~= Seq::<(Seq<u8>, Seq<u8>, RafsV5ChunkInfo, Seq<u8>)>::empty());
        let mut bootstrap = RafsIoReader::new(self.bootstrap.as_slice());
        let chunks = match Self::list_chunks(&mut bootstrap, &entry.inode, entry.offset) {
            Ok(Some(chunks)) => chunks,
            Ok(None) => {
                return Ok(out);
            },
            Err(e) => {
                return Err(e);
            },
        };
        let hits = select_chunks(&chunks, target);
        if hits.len() == 0 {
            return Ok(out);
        }
        let path = match self.path_from_ino(entry.inode.i_parent) {
            Ok(path) => path,
            Err(e) => {
                return Err(e);
            },
        };
        let stats = match self.resolve_blobs(&hits) {
            Ok(stats) => stats,
            Err(e) => {
                return Err(e);
            },
        };
        let ghost want = self.file_matches(entry@, target)->Ok_0;
        let mut j: usize = 0;
        while j < stats.len()
            invariant
                j <= stats@.len(),
                want.len() == stats@.len(),
                forall|k: int|
                    0 <= k < stats@.len() ==> want[k] == (
                        entry@.name,
                        path@,
                        (#[trigger] stats@[k]).chunk,
                        stats@[k].blob_id@,
                    ),
                views_of(out@) == want.subrange(0, j as int),
            decreases stats@.len() - j,
        {
            let s = &stats[j];
            let name = copy_range(entry.name.as_slice(), 0, entry.name.len());
            let parent_path = copy_range(path.as_slice(), 0, path.len());
            let blob_id = copy_range(s.blob_id.as_slice(), 0, s.blob_id.len());
            assert(name@ =~= entry.name@);
            assert(parent_path@ =~= path@);
            assert(blob_id@ =~= s.blob_id@);
            let ghost before = views_of(out@);
            let ghost view = (name@, parent_path@, s.chunk, blob_id@);
            assert(want[j as int] == view);
            out.push(ChunkMatch { name, parent_path, chunk: s.chunk, blob_id });
            assert(views_of(out@) =~= before.push(view));
            j = j + 1;
            assert(views_of(out@) =~= want.subrange(0, j as int));
        }
        assert(want.subrange(0, j as int) =~= want);
        Ok(out)
    }

    /// Finds every chunk that lies at the offset `offset_in_blob` of its blob: walks the
    /// whole tree from the root, decodes the chunks of every regular file, and returns
    /// each match with the name of its file, the path of the directory that holds the
    /// file, and the identifier of its blob. The first error ends the search: that of the
    /// walk, of the decoding of a file's chunks, of the path of a directory, or
    /// `NotFound` for a chunk whose blob the blob table does not hold.
    pub fn cmd_show_chunk(&self, offset_in_blob: u64) -> (res: Result<Vec<ChunkMatch>, RafsError>)
        ensures
            match self.chunk_matches(offset_in_blob) {
                Err(e) => res == Err::<Vec<ChunkMatch>, RafsError>(e),
                Ok(found) => res is Ok && views_of(res->Ok_0@) == found,
            },
    {
        let mut collector = CollectEntries::new(EntryFilter::Regular);
        match self.walk_fs(0, &mut collector) {
            Ok(()) => {},
            Err(e) => {
                return Err(e);
            },
        }
        let files = collector.entries;
        let ghost entries = entry_views(files@);
        let ghost goal = self.matches_from(entries, 0, offset_in_blob, Seq::empty());
        let mut out: Vec<ChunkMatch> = Vec::new();
        assert(views_of(out@) =~= Seq::<(Seq<u8>, Seq<u8>, RafsV5ChunkInfo, Seq<u8>)>::empty());
        let mut k: usize = 0;
        while k < files.len()
            invariant
                k <= files@.len(),
                entries == entry_views(files@),
                self.chunk_matches(offset_in_blob) == goal,
                goal == self.matches_from(entries, k as int, offset_in_blob, views_of(out@)),
            decreases files@.len() - k,
        {
            let mut found = match self.matches_of_file(&files[k], offset_in_blob) {
                Ok(found) => found,
                Err(e) => {
                    return Err(e);
                },
            };
            let ghost before = views_of(out@);
            let ghost more = views_of(found@);
            out.append(&mut found);
            assert(views_of(out@) =~= before + more);
            k = k + 1;
        }
        Ok(out)
    }

    /// The entries of `entries` from position `k` on, each with its path, behind `acc`.
    /// The first path that cannot be found ends the list with its error.
    pub open spec fn reports_from(
        &self,
        entries: Seq<EntryView>,
        k: int,
        acc: Seq<(Seq<u8>, (Seq<u8>, RafsV5Inode, int))>,
    ) -> Result<Seq<(Seq<u8>, (Seq<u8>, RafsV5Inode, int))>, RafsError>
        decreases entries.len() - k,
    {
        if k < 0 || k >= entries.len() {
            Ok(acc)
        } else {
            let e = entries[k];
            match self.path_components(e.inode.i_ino, self.inodes_table@.len()) {
                Err(x) => Err(x),
                Ok(names) => self.reports_from(
                    entries,
                    k + 1,
                    acc.push((path_join(names), (e.name, e.inode, e.index as int))),
                ),
            }
        }
    }

    /// Every entry of the tree below the root whose inode number is `ino`, in the order
    /// in which a walk from the root meets them, each with its path.
    pub open spec fn inode_reports(&self, ino: u64) -> Result<
        Seq<(Seq<u8>, (Seq<u8>, RafsV5Inode, int))>,
        RafsError,
    > {
        let end = self.walk_from::<CollectEntries>(
            seq![0u32],
            (EntryFilter::Ino(ino), Seq::empty()),
            self.inodes_table@.len() as int,
        );
        match end.1 {
            Some(e) => Err(e),
            None => self.reports_from(end.0.1, 0, Seq::empty()),
        }
    }

    /// Finds every entry of the tree below the root whose inode number is `ino`, and
    /// returns each with its path. The first error ends the search.
    pub fn cmd_check_inode(&self, ino: u64) -> (res: Result<Vec<InodeReport>, RafsError>)
        ensures
            match self.inode_reports(ino) {
                Err(e) => res == Err::<Vec<InodeReport>, RafsError>(e),
                Ok(found) => res is Ok && views_of(res->Ok_0@) == found,
            },
    {
        let mut collector = CollectEntries::new(EntryFilter::Ino(ino));
        match self.walk_fs(0, &mut collector) {
            Ok(()) => {},
            Err(e) => {
                return Err(e);
            },
        }
        let hits = collector.entries;
        let ghost entries = entry_views(hits@);
        let ghost goal = self.reports_from(entries, 0, Seq::empty());
        let mut out: Vec<InodeReport> = Vec::new();
        assert(views_of(out@) =~= Seq::<(Seq<u8>, (Seq<u8>, RafsV5Inode, int))>::empty());
        let mut k: usize = 0;
        while k < hits.len()
            invariant
                k <= hits@.len(),
                entries == entry_views(hits@),
                self.inode_reports(ino) == goal,
                goal == self.reports_from(entries, k as int, views_of(out@)),
            decreases hits@.len() - k,
        {
            let e = &hits[k];
            let path = match self.path_from_ino(e.inode.i_ino) {
                Ok(path) => path,
                Err(x) => {
                    return Err(x);
                },
            };
            let name = copy_range(e.name.as_slice(), 0, e.name.len());
            assert(name@ =~= e.name@);
            let ghost before = views_of(out@);
            let ghost view = (path@, (e.name@, e.inode, e.index as int));
            out.push(
                InodeReport { path, stat: FileStat { name, inode: e.inode, index: e.index as usize } },
            );
            assert(views_of(out@) =~= before.push(view));
            k = k + 1;
        }
        Ok(out)
    }
}

} // verus!
