//! Queries over an open bootstrap: on-demand decoding of inodes and chunks, directory
//! iteration, tree walking and path reconstruction.
//!
//! The superblock and the tables are loaded once, when the image is opened. Inode and
//! chunk records are decoded anew for every query; nothing is cached.

use vstd::prelude::*;
use crate::blob_table::{records_of, RafsV5BlobTable};
use crate::bytes::{align_up, le_u64_at};
use crate::chunk::RafsV5ChunkInfo;
use crate::error::RafsError;
use crate::inode::RafsV5Inode;
use crate::layout::{RafsLayoutV5, RafsMeta, RafsV5SuperBlock};
use crate::path::{join_components_reversed, path_join, views};
use crate::reader::RafsIoReader;
use crate::table::{
    table_offset, u32_array_at, RafsV5ExtBlobTable, RafsV5InodeTable, RafsV5XAttrsTable,
};

verus! {

/// What a visitor asks of the iteration that called it.
#[derive(Clone, Copy, Debug, PartialEq, Eq, Structural)]
pub enum Action {
    /// Skip the remaining entries of the directory at hand.
    Break,
    /// Go on with the next entry.
    Continue,
}

/// A callback that is handed every entry of the directories that an iteration visits.
///
/// What a visitor does is a function of its state, which says all that the visitor knows
/// and has gathered, and of the entry it sees.
pub trait InodeVisitor {
    /// What the visitor knows and has gathered, as a mathematical value.
    type State;

    /// The state of the visitor.
    spec fn state(&self) -> Self::State;

    /// The state of a visitor after it has seen an entry, and what it asks for.
    spec fn visited(
        state: Self::State,
        name: Seq<u8>,
        inode: RafsV5Inode,
        index: u32,
        offset: u64,
    ) -> (Self::State, Action);

    /// Sees the entry `name`, whose inode record `inode` has the table index `index` and
    /// lies at byte offset `offset`.
    fn visit(&mut self, name: &[u8], inode: &RafsV5Inode, index: u32, offset: u64) -> (a:
        Action)
        ensures
            (final(self).state(), a) == Self::visited(
                old(self).state(),
                name@,
                *inode,
                index,
                offset,
            ),
    ;
}

/// How the iteration over one directory ended.
pub struct LevelOutcome<S> {
    /// The state of the visitor after the last entry it saw.
    pub state: S,
    /// The table indexes of the subdirectories among the entries seen, in table order.
    pub dirs: Seq<u32>,
    /// The number of entries that were decoded.
    pub seen: nat,
    /// The error that ended the iteration, if one did.
    pub error: Option<RafsError>,
}

/// An open bootstrap.
pub struct RafsInspector {
    /// Whether results are wanted as structured values rather than as text.
    pub request_mode: bool,
    /// The bytes of the bootstrap.
    pub bootstrap: Vec<u8>,
    pub layout_profile: RafsLayoutV5,
    pub rafs_meta: RafsMeta,
    /// Table index of the directory that queries start from; the root has index zero.
    pub cur_dir_index: u32,
    /// The directories that were left on the way to the current one, outermost first.
    pub parent_indexes: Vec<u32>,
    pub inodes_table: RafsV5InodeTable,
    pub blobs_table: RafsV5BlobTable,
    /// The extended blob table; `None` for an image that has none.
    pub extended_blobs_table: Option<RafsV5ExtBlobTable>,
}

/// The bytes of the blob table that `sb` announces in `s`.
pub open spec fn blob_table_bytes(s: Seq<u8>, sb: RafsV5SuperBlock) -> Seq<u8> {
    if sb.s_blob_table_size == 0 {
        Seq::empty()
    } else {
        s.subrange(
            sb.s_blob_table_offset as int,
            sb.s_blob_table_offset + sb.s_blob_table_size,
        )
    }
}

/// Whether `s` is a bootstrap that can be opened: it holds a superblock that is consistent
/// with its length, and a blob table made of whole records.
pub open spec fn openable(s: Seq<u8>) -> bool {
    &&& 8192 <= s.len()
    &&& RafsV5SuperBlock::decoded(s, 0).consistent(s.len() as int)
    &&& records_of(blob_table_bytes(s, RafsV5SuperBlock::decoded(s, 0))) is Some
}

/// The inode header and the file name stored in `s` at byte offset `offset`, or
/// `CorruptFormat` where the stream ends before they do.
pub open spec fn ondisk_inode(s: Seq<u8>, offset: int) -> Result<(RafsV5Inode, Seq<u8>), RafsError> {
    if offset < 0 || offset + 128 > s.len() {
        Err(RafsError::CorruptFormat)
    } else {
        let inode = RafsV5Inode::decoded(s, offset);
        if offset + 128 + inode.i_name_size > s.len() {
            Err(RafsError::CorruptFormat)
        } else {
            Ok((inode, s.subrange(offset + 128, offset + 128 + inode.i_name_size)))
        }
    }
}

/// The byte offset at which the chunk records of a regular file start: behind the inode
/// record and, where there is one, behind the extended-attribute block with its 8-byte
/// header. `CorruptFormat` where the stream ends before the header of that block does.
pub open spec fn chunks_offset(s: Seq<u8>, inode: RafsV5Inode, inode_offset: int) -> Result<
    int,
    RafsError,
> {
    let after = inode_offset + inode.spec_size();
    if !inode.spec_has_xattr() {
        Ok(after)
    } else if after + 8 > s.len() {
        Err(RafsError::CorruptFormat)
    } else {
        Ok(after + 8 + align_up(le_u64_at(s, after) as int))
    }
}

/// The chunk records of the inode `inode`, whose record lies at `inode_offset` in `s`:
/// `None` for anything but a regular file and for a file without chunks, and
/// `CorruptFormat` where the stream ends before the records do.
pub open spec fn chunks_of(s: Seq<u8>, inode: RafsV5Inode, inode_offset: int) -> Result<
    Option<Seq<RafsV5ChunkInfo>>,
    RafsError,
> {
    if !inode.spec_is_reg() {
        Ok(None)
    } else {
        match chunks_offset(s, inode, inode_offset) {
            Err(e) => Err(e),
            Ok(start) => if start > s.len() {
                Err(RafsError::CorruptFormat)
            } else if inode.i_child_count == 0 {
                Ok(None)
            } else if start + 80 * inode.i_child_count > s.len() {
                Err(RafsError::CorruptFormat)
            } else {
                Ok(Some(RafsV5ChunkInfo::decoded_run(s, start, inode.i_child_count as nat)))
            },
        }
    }
}

impl RafsInspector {
    /// The tables are those that the superblock of the bootstrap announces.
    pub open spec fn wf(&self) -> bool {
        let s = self.bootstrap@;
        let sb = RafsV5SuperBlock::decoded(s, 0);
        &&& openable(s)
        &&& self.layout_profile == (RafsLayoutV5 {
            super_block_offset: 0,
            super_block_size: 8192,
            inode_size: 128,
            chunk_info_size: 80,
        })
        &&& self.rafs_meta == RafsMeta::of(sb)
        &&& self.inodes_table@ == u32_array_at(
            s,
            sb.s_inode_table_offset as int,
            sb.s_inode_table_entries as nat,
        )
        &&& self.blobs_table.loaded_as(records_of(blob_table_bytes(s, sb))->0)
        &&& self.extended_blobs_table is Some <==> sb.s_extended_blob_table_offset > 0
        &&& self.extended_blobs_table is Some ==> self.extended_blobs_table->0@
            == RafsV5ExtBlobTable::decoded(
            s,
            sb.s_extended_blob_table_offset as int,
            sb.s_extended_blob_table_entries as nat,
        )
    }

    /// The inode header and the file name of the inode with table index `index`, or
    /// `OutOfRange` where the table has no such entry.
    pub open spec fn inode_by_index(&self, index: int) -> Result<
        (RafsV5Inode, Seq<u8>),
        RafsError,
    > {
        if 0 <= index < self.inodes_table@.len() {
            ondisk_inode(self.bootstrap@, table_offset(self.inodes_table@, index))
        } else {
            Err(RafsError::OutOfRange)
        }
    }

    /// The inode header and the file name of the inode with number `ino`, or `OutOfRange`
    /// where no entry of the table stands for `ino`.
    pub open spec fn inode_by_ino(&self, ino: u64) -> Result<(RafsV5Inode, Seq<u8>), RafsError> {
        if 1 <= ino <= self.inodes_table@.len() {
            ondisk_inode(self.bootstrap@, table_offset(self.inodes_table@, ino - 1))
        } else {
            Err(RafsError::OutOfRange)
        }
    }

    /// Opens the bootstrap held in `bootstrap`: decodes and checks the superblock and
    /// loads the tables. The current directory is the root. Fails with `CorruptFormat`
    /// exactly where the bytes are not those of an openable bootstrap.
    pub fn new(bootstrap: Vec<u8>, request_mode: bool) -> (res: Result<Self, RafsError>)
        ensures
            res is Ok <==> openable(bootstrap@),
            res is Ok ==> {
                let i = res->Ok_0;
                &&& i.wf()
                &&& i.bootstrap@ == bootstrap@
                &&& i.request_mode == request_mode
                &&& i.cur_dir_index == 0
                &&& i.parent_indexes@.len() == 0
            },
            res is Err ==> res->Err_0 == RafsError::CorruptFormat,
    {
        let layout_profile = RafsLayoutV5::new();
        let mut f = RafsIoReader::new(bootstrap.as_slice());
        let sb = match Self::super_block(&mut f, &layout_profile) {
            Ok(sb) => sb,
            Err(e) => {
                return Err(e);
            },
        };
        match sb.validate(f.len() as u64) {
            Ok(()) => {},
            Err(e) => {
                return Err(e);
            },
        }
        let rafs_meta: RafsMeta = RafsMeta::from(&sb);

        let mut inodes_table = RafsV5InodeTable::new(rafs_meta.inode_table_entries as usize);
        match f.seek_to_offset(rafs_meta.inode_table_offset) {
            Ok(()) => {},
            Err(e) => {
                return Err(e);
            },
        }
        match inodes_table.load(&mut f) {
            Ok(()) => {},
            Err(e) => {
                return Err(e);
            },
        }

        let mut blobs_table = RafsV5BlobTable::new();
        if rafs_meta.blob_table_size > 0 {
            match f.seek_to_offset(rafs_meta.blob_table_offset) {
                Ok(()) => {},
                Err(e) => {
                    return Err(e);
                },
            }
            match blobs_table.load(&mut f, rafs_meta.blob_table_size) {
                Ok(()) => {},
                Err(e) => {
                    return Err(e);
                },
            }
        }

        // An image without an extended blob table is a legacy image.
        let extended_blobs_table = if rafs_meta.extended_blob_table_offset > 0 {
            match f.seek_to_offset(rafs_meta.extended_blob_table_offset) {
                Ok(()) => {},
                Err(e) => {
                    return Err(e);
                },
            }
            let mut et = RafsV5ExtBlobTable::new();
            match et.load(&mut f, rafs_meta.extended_blob_table_entries as usize) {
                Ok(()) => {},
                Err(e) => {
                    return Err(e);
                },
            }
            Some(et)
        } else {
            None
        };

        Ok(
            RafsInspector {
                request_mode,
                bootstrap,
                layout_profile,
                rafs_meta,
                cur_dir_index: 0,
                parent_indexes: Vec::new(),
                inodes_table,
                blobs_table,
                extended_blobs_table,
            },
        )
    }

    /// Decodes the superblock, which lies where `layout_profile` says. Fails with
    /// `CorruptFormat` exactly where the stream ends before the superblock does.
    pub fn super_block(b: &mut RafsIoReader, layout_profile: &RafsLayoutV5) -> (res: Result<
        RafsV5SuperBlock,
        RafsError,
    >)
        ensures
            final(b).bytes() == old(b).bytes(),
            res is Ok <==> layout_profile.super_block_offset + 8192 <= old(b).bytes().len(),
            res is Ok ==> res->Ok_0 == RafsV5SuperBlock::decoded(
                old(b).bytes(),
                layout_profile.super_block_offset as int,
            ) && final(b).position() == layout_profile.super_block_offset + 8192,
            res is Err ==> res->Err_0 == RafsError::CorruptFormat,
    {
        let mut sb = RafsV5SuperBlock::new();
        match b.seek_to_offset(layout_profile.super_block_offset as u64) {
            Ok(()) => {},
            Err(e) => {
                return Err(e);
            },
        }
        match sb.load(b) {
            Ok(()) => {},
            Err(e) => {
                return Err(e);
            },
        }
        Ok(sb)
    }

    /// Decodes the inode header at byte offset `offset` and the file name behind it.
    /// Fails with `CorruptFormat` exactly where the stream ends before they do.
    pub fn load_ondisk_inode(&self, offset: u64) -> (res: Result<(RafsV5Inode, Vec<u8>), RafsError>)
        ensures
            res is Ok <==> ondisk_inode(self.bootstrap@, offset as int) is Ok,
            res is Ok ==> (res->Ok_0.0, res->Ok_0.1@) == ondisk_inode(
                self.bootstrap@,
                offset as int,
            )->Ok_0,
            res is Err ==> res->Err_0 == RafsError::CorruptFormat,
            ondisk_inode(self.bootstrap@, offset as int) is Err ==> ondisk_inode(
                self.bootstrap@,
                offset as int,
            )->Err_0 == RafsError::CorruptFormat,
    {
        let mut ondisk_inode = RafsV5Inode::new();
        let mut bootstrap = RafsIoReader::new(self.bootstrap.as_slice());
        match bootstrap.seek_to_offset(offset) {
            Ok(()) => {},
            Err(e) => {
                return Err(e);
            },
        }
        match ondisk_inode.load(&mut bootstrap) {
            Ok(()) => {},
            Err(e) => {
                return Err(e);
            },
        }
        let file_name = match ondisk_inode.file_name(&mut bootstrap) {
            Ok(n) => n,
            Err(e) => {
                return Err(e);
            },
        };
        Ok((ondisk_inode, file_name))
    }

    /// Decodes the inode with table index `index`. Fails with `OutOfRange` where the
    /// table has no such entry and with `CorruptFormat` where the stream ends before the
    /// record does.
    pub fn load_inode_by_index(&self, index: usize) -> (res: Result<
        (RafsV5Inode, Vec<u8>),
        RafsError,
    >)
        ensures
            res is Ok <==> self.inode_by_index(index as int) is Ok,
            res is Ok ==> (res->Ok_0.0, res->Ok_0.1@) == self.inode_by_index(index as int)->Ok_0,
            res is Err ==> res->Err_0 == self.inode_by_index(index as int)->Err_0,
    {
        let inode_offset = match self.inodes_table.offset_of(index) {
            Ok(o) => o,
            Err(e) => {
                return Err(e);
            },
        };
        self.load_ondisk_inode(inode_offset)
    }

    /// Decodes the inode with number `ino`. Fails with `OutOfRange` where no entry of the
    /// table stands for `ino` and with `CorruptFormat` where the stream ends before the
    /// record does.
    pub fn load_inode_by_ino(&self, ino: u64) -> (res: Result<(RafsV5Inode, Vec<u8>), RafsError>)
        ensures
            res is Ok <==> self.inode_by_ino(ino) is Ok,
            res is Ok ==> (res->Ok_0.0, res->Ok_0.1@) == self.inode_by_ino(ino)->Ok_0,
            res is Err ==> res->Err_0 == self.inode_by_ino(ino)->Err_0,
    {
        let inode_offset = match self.inodes_table.get(ino) {
            Ok(o) => o,
            Err(e) => {
                return Err(e);
            },
        };
        self.load_ondisk_inode(inode_offset)
    }

    /// Decodes the chunk records of `inode`, whose record lies at byte offset
    /// `inode_offset`. Returns `None` for anything but a regular file and for a file
    /// without chunks. Fails with `CorruptFormat` where the stream ends before the
    /// records do.
    pub fn list_chunks(r: &mut RafsIoReader, inode: &RafsV5Inode, inode_offset: u64) -> (res:
        Result<Option<Vec<RafsV5ChunkInfo>>, RafsError>)
        ensures
            final(r).bytes() == old(r).bytes(),
            res is Ok <==> chunks_of(old(r).bytes(), *inode, inode_offset as int) is Ok,
            res is Ok ==> match chunks_of(old(r).bytes(), *inode, inode_offset as int)->Ok_0 {
                Some(chunks) => res->Ok_0 is Some && res->Ok_0->0@ == chunks,
                None => res->Ok_0 is None,
            },
            res is Err ==> res->Err_0 == RafsError::CorruptFormat,
            chunks_of(old(r).bytes(), *inode, inode_offset as int) is Err ==> chunks_of(
                old(r).bytes(),
                *inode,
                inode_offset as int,
            )->Err_0 == RafsError::CorruptFormat,
    {
        if !inode.is_reg() {
            return Ok(None);
        }
        let ghost s = r.bytes();
        let total = r.len() as u64;
        if inode_offset > total || inode.size() > total - inode_offset {
            return Err(RafsError::CorruptFormat);
        }
        let after = inode_offset + inode.size();
        let mut xattr_pairs_aligned_size: u64 = 0;
        if inode.has_xattr() {
            match r.seek_to_offset(after) {
                Ok(()) => {},
                Err(e) => {
                    return Err(e);
                },
            }
            let mut xattrs_header = RafsV5XAttrsTable::new();
            match xattrs_header.load(r) {
                Ok(()) => {},
                Err(e) => {
                    return Err(e);
                },
            }
            let aligned = match xattrs_header.aligned_size() {
                Some(a) => a,
                None => {
                    return Err(RafsError::CorruptFormat);
                },
            };
            if aligned > total - after - 8 {
                return Err(RafsError::CorruptFormat);
            }
            xattr_pairs_aligned_size = aligned + 8;
        }
        let chunks_offset = after + xattr_pairs_aligned_size;
        match r.seek_to_offset(chunks_offset) {
            Ok(()) => {},
            Err(e) => {
                return Err(e);
            },
        }
        if inode.i_child_count == 0 {
            return Ok(None);
        }
        let count = inode.i_child_count as u64;
        if count > (total - chunks_offset) / 80 {
            return Err(RafsError::CorruptFormat);
        }
        let mut chunks: Vec<RafsV5ChunkInfo> = Vec::new();
        let mut k: u64 = 0;
        while k < count
            invariant
                k <= count,
                r.bytes() == s,
                total == s.len(),
                chunks_offset + 80 * count <= total,
                r.position() == chunks_offset + 80 * k,
                chunks@ == RafsV5ChunkInfo::decoded_run(s, chunks_offset as int, k as nat),
            decreases count - k,
        {
            let mut chunk = RafsV5ChunkInfo::new();
            match chunk.load(r) {
                Ok(()) => {},
                Err(e) => {
                    return Err(e);
                },
            }
            chunks.push(chunk);
            k = k + 1;
            assert(chunks@ =~= RafsV5ChunkInfo::decoded_run(s, chunks_offset as int, k as nat));
        }
        Ok(Some(chunks))
    }

    /// How the iteration over the entries of a directory goes on from its `k`-th entry.
    /// The directory has the inode number `parent_ino`; its `count` entries have the
    /// table indexes from `first` on. At most `budget` entries may be decoded: one more is
    /// `CorruptFormat`. So is an entry whose recorded parent is not `parent_ino`. The
    /// visitor sees every entry in table order until it asks for a `Break`.
    pub open spec fn level<V: InodeVisitor>(
        &self,
        parent_ino: u64,
        first: int,
        count: int,
        budget: int,
        k: int,
        v: V::State,
        dirs: Seq<u32>,
    ) -> LevelOutcome<V::State>
        decreases count - k,
    {
        if k >= count {
            LevelOutcome { state: v, dirs, seen: k as nat, error: None }
        } else if k >= budget {
            LevelOutcome { state: v, dirs, seen: k as nat, error: Some(RafsError::CorruptFormat) }
        } else if first + k > u32::MAX {
            LevelOutcome { state: v, dirs, seen: k as nat, error: Some(RafsError::OutOfRange) }
        } else {
            match self.inode_by_index(first + k) {
                Err(e) => LevelOutcome { state: v, dirs, seen: k as nat, error: Some(e) },
                Ok((child, name)) => if child.i_parent != parent_ino {
                    LevelOutcome {
                        state: v,
                        dirs,
                        seen: k as nat,
                        error: Some(RafsError::CorruptFormat),
                    }
                } else {
                    let index = (first + k) as u32;
                    let below = if child.spec_is_dir() {
                        dirs.push(index)
                    } else {
                        dirs
                    };
                    let (after, action) = V::visited(
                        v,
                        name,
                        child,
                        index,
                        table_offset(self.inodes_table@, first + k) as u64,
                    );
                    match action {
                        Action::Break => LevelOutcome {
                            state: after,
                            dirs: below,
                            seen: (k + 1) as nat,
                            error: None,
                        },
                        Action::Continue => self.level::<V>(
                            parent_ino,
                            first,
                            count,
                            budget,
                            k + 1,
                            after,
                            below,
                        ),
                    }
                },
            }
        }
    }

    /// How the iteration over the entries of the directory with table index `index` goes.
    /// `NotADirectory` where the inode is no directory; `CorruptFormat` where a directory
    /// with entries records no first child. The index of the first child is one less than
    /// the header records.
    pub open spec fn dir_entries<V: InodeVisitor>(
        &self,
        index: int,
        budget: int,
        v: V::State,
    ) -> LevelOutcome<V::State> {
        match self.inode_by_index(index) {
            Err(e) => LevelOutcome { state: v, dirs: Seq::empty(), seen: 0, error: Some(e) },
            Ok((dir, _)) => if !dir.spec_is_dir() {
                LevelOutcome {
                    state: v,
                    dirs: Seq::empty(),
                    seen: 0,
                    error: Some(RafsError::NotADirectory),
                }
            } else if dir.i_child_count == 0 {
                LevelOutcome { state: v, dirs: Seq::empty(), seen: 0, error: None }
            } else if dir.i_child_index == 0 {
                LevelOutcome {
                    state: v,
                    dirs: Seq::empty(),
                    seen: 0,
                    error: Some(RafsError::CorruptFormat),
                }
            } else {
                self.level::<V>(
                    dir.i_ino,
                    dir.i_child_index - 1,
                    dir.i_child_count as int,
                    budget,
                    0,
                    v,
                    Seq::empty(),
                )
            },
        }
    }

    /// An iteration that ends well has decoded no more entries than its budget, and has
    /// found no more subdirectories than entries.
    pub proof fn lemma_level_bounds<V: InodeVisitor>(
        &self,
        parent_ino: u64,
        first: int,
        count: int,
        budget: int,
        k: int,
        v: V::State,
        dirs: Seq<u32>,
    )
        requires
            0 <= k <= budget,
            dirs.len() <= k,
        ensures
            ({
                let out = self.level::<V>(parent_ino, first, count, budget, k, v, dirs);
                out.error is None ==> out.dirs.len() <= out.seen <= budget
            }),
        decreases count - k,
    {
        if k < count && k < budget && first + k <= u32::MAX {
            match self.inode_by_index(first + k) {
                Err(e) => {},
                Ok((child, name)) => {
                    if child.i_parent == parent_ino {
                        let index = (first + k) as u32;
                        let below = if child.spec_is_dir() {
                            dirs.push(index)
                        } else {
                            dirs
                        };
                        let (after, action) = V::visited(
                        v,
                            name,
                            child,
                            index,
                            table_offset(self.inodes_table@, first + k) as u64,
                        );
                        if action == Action::Continue {
                            self.lemma_level_bounds::<V>(
                                parent_ino,
                                first,
                                count,
                                budget,
                                k + 1,
                                after,
                                below,
                            );
                        }
                    }
                },
            }
        }
    }

    /// The same bounds for the iteration over a whole directory.
    pub proof fn lemma_dir_entries_bounds<V: InodeVisitor>(
        &self,
        index: int,
        budget: int,
        v: V::State,
    )
        requires
            0 <= budget,
        ensures
            ({
                let out = self.dir_entries::<V>(index, budget, v);
                out.error is None ==> out.dirs.len() <= out.seen <= budget
            }),
    {
        match self.inode_by_index(index) {
            Err(e) => {},
            Ok((dir, _)) => {
                if dir.spec_is_dir() && dir.i_child_count != 0 && dir.i_child_index != 0 {
                    self.lemma_level_bounds::<V>(
                        dir.i_ino,
                        dir.i_child_index - 1,
                        dir.i_child_count as int,
                        budget,
                        0,
                        v,
                        Seq::empty(),
                    );
                }
            },
        }
    }

    /// Hands the entries of the directory with table index `dir_index` to `op`, in table
    /// order, until `op` asks for a `Break`. Returns the number of entries decoded and the
    /// table indexes of the subdirectories among them.
    pub fn visit_level<V: InodeVisitor>(&self, dir_index: u32, budget: u64, op: &mut V) -> (res:
        Result<(u64, Vec<u32>), RafsError>)
        ensures
            ({
                let out = self.dir_entries::<V>(dir_index as int, budget as int, old(op).state());
                &&& final(op).state() == out.state
                &&& res is Ok <==> out.error is None
                &&& res is Ok ==> res->Ok_0.0 == out.seen && res->Ok_0.1@ == out.dirs
                &&& res is Err ==> out.error == Some(res->Err_0)
            }),
    {
        let ghost start = op.state();
        let mut dirs: Vec<u32> = Vec::new();
        let (dir_inode, _) = match self.load_inode_by_index(dir_index as usize) {
            Ok(found) => found,
            Err(e) => {
                return Err(e);
            },
        };
        if !dir_inode.is_dir() {
            return Err(RafsError::NotADirectory);
        }
        let parent_ino = dir_inode.i_ino;
        let children_count = dir_inode.i_child_count;
        if children_count == 0 {
            return Ok((0, dirs));
        }
        if dir_inode.i_child_index == 0 {
            return Err(RafsError::CorruptFormat);
        }
        // The header records one more than the table index of the first child.
        let first_index = dir_inode.i_child_index - 1;
        let ghost goal = self.dir_entries::<V>(dir_index as int, budget as int, start);
        let mut k: u32 = 0;
        while k < children_count
            invariant
                k <= children_count,
                goal == self.dir_entries::<V>(dir_index as int, budget as int, old(op).state()),
                goal == self.level::<V>(
                    parent_ino,
                    first_index as int,
                    children_count as int,
                    budget as int,
                    k as int,
                    op.state(),
                    dirs@,
                ),
            decreases children_count - k,
        {
            if k as u64 >= budget {
                return Err(RafsError::CorruptFormat);
            }
            let wide = first_index as u64 + k as u64;
            if wide > u32::MAX as u64 {
                return Err(RafsError::OutOfRange);
            }
            let idx = wide as u32;
            let (child_inode, name) = match self.load_inode_by_index(idx as usize) {
                Ok(found) => found,
                Err(e) => {
                    return Err(e);
                },
            };
            if child_inode.i_parent != parent_ino {
                return Err(RafsError::CorruptFormat);
            }
            if child_inode.is_dir() {
                dirs.push(idx);
            }
            let inode_offset = match self.inodes_table.offset_of(idx as usize) {
                Ok(o) => o,
                Err(e) => {
                    return Err(e);
                },
            };
            match op.visit(name.as_slice(), &child_inode, idx, inode_offset) {
                Action::Break => {
                    return Ok((k as u64 + 1, dirs));
                },
                Action::Continue => {},
            }
            k = k + 1;
        }
        Ok((k as u64, dirs))
    }

    /// Hands the entries of the current directory to `op`, in table order, until `op`
    /// asks for a `Break`. Fails with `NotADirectory` where the current inode is no
    /// directory, with `CorruptFormat` at an entry whose recorded parent is not the
    /// current directory, and with the error of the first entry that cannot be decoded.
    pub fn iter_dir<V: InodeVisitor>(&self, op: &mut V) -> (res: Result<(), RafsError>)
        ensures
            ({
                let out = self.dir_entries::<V>(
                    self.cur_dir_index as int,
                    0x1_0000_0000,
                    old(op).state(),
                );
                &&& final(op).state() == out.state
                &&& res is Ok <==> out.error is None
                &&& res is Err ==> out.error == Some(res->Err_0)
            }),
    {
        match self.visit_level(self.cur_dir_index, 0x1_0000_0000, op) {
            Ok(_) => Ok(()),
            Err(e) => Err(e),
        }
    }

    /// How the walk goes on from a stack of directories that are still to be visited, the
    /// next one last. The entries of the next directory are handed to the visitor, then
    /// its subdirectories are visited in table order, each with everything below it,
    /// before the directories that were on the stack. Every entry decoded is taken from
    /// the budget; an error ends the walk.
    pub open spec fn walk_from<V: InodeVisitor>(
        &self,
        stack: Seq<u32>,
        v: V::State,
        budget: int,
    ) -> (V::State, Option<RafsError>)
        decreases 2 * budget + stack.len(),
        when budget >= 0
    {
        if stack.len() == 0 {
            (v, None)
        } else {
            let out = self.dir_entries::<V>(stack.last() as int, budget, v);
            if out.error is Some {
                (out.state, out.error)
            } else {
                proof {
                    self.lemma_dir_entries_bounds::<V>(stack.last() as int, budget, v);
                }
                self.walk_from::<V>(
                    stack.drop_last() + out.dirs.reverse(),
                    out.state,
                    budget - out.seen,
                )
            }
        }
    }

    /// Walks the tree below the directory with table index `top_index`, depth first: the
    /// entries of a directory are handed to `op` in table order, files and directories
    /// alike, and its subdirectories are visited afterwards, in the same order. A `Break`
    /// skips the remaining entries of the directory at hand only. The walk decodes at
    /// most as many entries as the inode table has; a tree that asks for more holds a
    /// cycle and is `CorruptFormat`, as is an entry whose recorded parent is not the
    /// directory it was found in. The first error ends the walk.
    pub fn walk_fs<V: InodeVisitor>(&self, top_index: u32, op: &mut V) -> (res: Result<
        (),
        RafsError,
    >)
        ensures
            ({
                let end = self.walk_from::<V>(
                    seq![top_index],
                    old(op).state(),
                    self.inodes_table@.len() as int,
                );
                &&& final(op).state() == end.0
                &&& res is Ok <==> end.1 is None
                &&& res is Err ==> end.1 == Some(res->Err_0)
            }),
    {
        let mut budget: u64 = self.inodes_table.len() as u64;
        let mut stack: Vec<u32> = Vec::new();
        stack.push(top_index);
        assert(stack@ =~= seq![top_index]);
        let ghost goal = self.walk_from::<V>(stack@, op.state(), budget as int);
        while stack.len() > 0
            invariant
                goal == self.walk_from::<V>(
                    seq![top_index],
                    old(op).state(),
                    self.inodes_table@.len() as int,
                ),
                goal == self.walk_from::<V>(stack@, op.state(), budget as int),
            decreases 2 * budget + stack@.len(),
        {
            let ghost before = stack@;
            let ghost visitor = op.state();
            let dir_index = stack.pop().unwrap();
            let ghost rest = stack@;
            assert(rest == before.drop_last());
            proof {
                self.lemma_dir_entries_bounds::<V>(dir_index as int, budget as int, visitor);
            }
            let (seen, dirs) = match self.visit_level(dir_index, budget, op) {
                Ok(found) => found,
                Err(e) => {
                    return Err(e);
                },
            };
            budget = budget - seen;
            let mut j: usize = dirs.len();
            assert(dirs@.subrange(j as int, dirs@.len() as int).reverse() =~= Seq::<u32>::empty());
            while j > 0
                invariant
                    j <= dirs@.len(),
                    stack@ == rest + dirs@.subrange(j as int, dirs@.len() as int).reverse(),
                decreases j,
            {
                j = j - 1;
                stack.push(dirs[j]);
                assert(stack@ =~= rest + dirs@.subrange(j as int, dirs@.len() as int).reverse());
            }
            assert(dirs@.subrange(0, dirs@.len() as int) =~= dirs@);
        }
        Ok(())
    }

    /// The names on the way from the root to the inode with number `ino`, the root's
    /// first: the name of the inode behind the names of its ancestors, which end at the
    /// inode that records the parent zero. `fuel` bounds the number of inodes on the way;
    /// an inode that is found behind that many others is `CorruptFormat`.
    pub open spec fn path_components(&self, ino: u64, fuel: nat) -> Result<
        Seq<Seq<u8>>,
        RafsError,
    >
        decreases fuel,
    {
        match self.inode_by_ino(ino) {
            Err(e) => Err(e),
            Ok((inode, name)) => if fuel == 0 {
                Err(RafsError::CorruptFormat)
            } else if inode.i_parent == 0 {
                Ok(seq![name])
            } else {
                match self.path_components(inode.i_parent, (fuel - 1) as nat) {
                    Err(e) => Err(e),
                    Ok(above) => Ok(above.push(name)),
                }
            },
        }
    }

    /// The names on the way from the inode with number `ino` up to the root, the name of
    /// the inode first.
    fn names_to_root(&self, ino: u64) -> (res: Result<Vec<Vec<u8>>, RafsError>)
        ensures
            match self.path_components(ino, self.inodes_table@.len()) {
                Ok(names) => res is Ok && views(res->Ok_0@).reverse() == names,
                Err(e) => res == Err::<Vec<Vec<u8>>, RafsError>(e),
            },
    {
        let mut entries: Vec<Vec<u8>> = Vec::new();
        let mut cur = ino;
        let mut fuel: usize = self.inodes_table.len();
        let ghost goal = self.path_components(ino, self.inodes_table@.len());
        assert(views(entries@).reverse() =~= Seq::<Seq<u8>>::empty());
        loop
            invariant
                goal == self.path_components(ino, self.inodes_table@.len()),
                match self.path_components(cur, fuel as nat) {
                    Ok(above) => goal == Ok::<Seq<Seq<u8>>, RafsError>(
                        above + views(entries@).reverse(),
                    ),
                    Err(e) => goal == Err::<Seq<Seq<u8>>, RafsError>(e),
                },
            decreases fuel,
        {
            let (inode, file_name) = match self.load_inode_by_ino(cur) {
                Ok(found) => found,
                Err(e) => {
                    return Err(e);
                },
            };
            if fuel == 0 {
                return Err(RafsError::CorruptFormat);
            }
            let ghost before = views(entries@).reverse();
            let ghost name = file_name@;
            entries.push(file_name);
            assert(views(entries@).reverse() =~= seq![name] + before);
            if inode.i_parent == 0 {
                return Ok(entries);
            }
            proof {
                let above = self.path_components(inode.i_parent, (fuel - 1) as nat);
                if above is Ok {
                    assert(above->Ok_0.push(name) + before =~= above->Ok_0 + (seq![name] + before));
                }
            }
            cur = inode.i_parent;
            fuel = fuel - 1;
        }
    }

    /// The path of the inode with number `ino`: the names from the root down to the
    /// inode, joined by separators. Fails with `OutOfRange` where the inode or one of its
    /// ancestors is not in the inode table, and with `CorruptFormat` where a record cannot
    /// be decoded or the way up holds more inodes than the table, as it does in a cycle.
    pub fn path_from_ino(&self, ino: u64) -> (res: Result<Vec<u8>, RafsError>)
        ensures
            match self.path_components(ino, self.inodes_table@.len()) {
                Ok(names) => res is Ok && res->Ok_0@ == path_join(names),
                Err(e) => res == Err::<Vec<u8>, RafsError>(e),
            },
    {
        let entries = match self.names_to_root(ino) {
            Ok(entries) => entries,
            Err(e) => {
                return Err(e);
            },
        };
        Ok(join_components_reversed(&entries))
    }
}

} // verus!
