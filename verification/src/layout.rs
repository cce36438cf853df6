//! The superblock: the fixed header that says where every table of the bootstrap lies.

use vstd::prelude::*;
use vstd::bytes::*;
use vstd::std_specs::convert::FromSpecImpl;
use crate::bytes::{
    get_le_u32, get_le_u64, le_u32_at, le_u64_at, put_le_u32, put_le_u64, put_zeros, zeros,
};
use crate::error::RafsError;
use crate::reader::RafsIoReader;

verus! {

/// Size in bytes of the superblock.
pub const RAFSV5_SUPERBLOCK_SIZE: usize = 8192;

/// Number of bytes of the superblock that hold fields; the rest is reserved.
pub const RAFSV5_SUPERBLOCK_USED_SIZE: usize = 80;

/// Magic number that opens every bootstrap.
pub const RAFSV5_SUPER_MAGIC: u32 = 0x5241_4653;

/// Oldest format version that is accepted.
pub const RAFS_SUPER_VERSION_V4: u32 = 0x400;

/// Newest format version that is accepted.
pub const RAFS_SUPER_VERSION_V5: u32 = 0x500;

/// Size in bytes of an entry of the inode table and of the prefetch table.
pub const RAFSV5_TABLE_ENTRY_SIZE: u64 = 4;

/// Size in bytes of an entry of the extended blob table.
pub const RAFSV5_EXT_BLOB_ENTRY_SIZE: usize = 64;

/// Where the fixed-size parts of the layout lie and how large they are.
#[derive(Clone, Copy, Debug, PartialEq, Eq, Structural)]
pub struct RafsLayoutV5 {
    pub super_block_offset: u32,
    pub super_block_size: u32,
    pub inode_size: u32,
    pub chunk_info_size: u32,
}

impl RafsLayoutV5 {
    /// The layout of format version 5: the superblock at offset zero in 8192 bytes, inode
    /// headers of 128 bytes and chunk records of 80 bytes.
    pub fn new() -> (l: Self)
        ensures
            l == (RafsLayoutV5 {
                super_block_offset: 0,
                super_block_size: 8192,
                inode_size: 128,
                chunk_info_size: 80,
            }),
    {
        RafsLayoutV5 {
            super_block_offset: 0,
            super_block_size: 8192,
            inode_size: 128,
            chunk_info_size: 80,
        }
    }
}

/// The fields of the superblock.
#[derive(Clone, Copy, Debug, PartialEq, Eq, Structural)]
pub struct RafsV5SuperBlock {
    pub s_magic: u32,
    pub s_fs_version: u32,
    pub s_sb_size: u32,
    pub s_block_size: u32,
    pub s_flags: u64,
    /// Number of distinct inodes; hard links count once.
    pub s_inodes_count: u64,
    pub s_inode_table_offset: u64,
    pub s_prefetch_table_offset: u64,
    pub s_blob_table_offset: u64,
    pub s_inode_table_entries: u32,
    pub s_prefetch_table_entries: u32,
    /// Size in bytes of the blob table.
    pub s_blob_table_size: u32,
    pub s_extended_blob_table_entries: u32,
    /// Offset of the extended blob table; zero where the image has none.
    pub s_extended_blob_table_offset: u64,
}

/// Whether a table of `size` bytes at `off` lies behind the superblock and inside a
/// stream of `len` bytes.
pub open spec fn table_in_bounds(off: int, size: int, len: int) -> bool {
    8192 <= off && off + size <= len
}

/// Whether two tables share no byte. An empty table overlaps nothing.
pub open spec fn tables_disjoint(off1: int, size1: int, off2: int, size2: int) -> bool {
    size1 == 0 || size2 == 0 || off1 + size1 <= off2 || off2 + size2 <= off1
}

impl RafsV5SuperBlock {
    /// The superblock stored in `s` at `off`.
    pub open spec fn decoded(s: Seq<u8>, off: int) -> RafsV5SuperBlock {
        RafsV5SuperBlock {
            s_magic: le_u32_at(s, off),
            s_fs_version: le_u32_at(s, off + 4),
            s_sb_size: le_u32_at(s, off + 8),
            s_block_size: le_u32_at(s, off + 12),
            s_flags: le_u64_at(s, off + 16),
            s_inodes_count: le_u64_at(s, off + 24),
            s_inode_table_offset: le_u64_at(s, off + 32),
            s_prefetch_table_offset: le_u64_at(s, off + 40),
            s_blob_table_offset: le_u64_at(s, off + 48),
            s_inode_table_entries: le_u32_at(s, off + 56),
            s_prefetch_table_entries: le_u32_at(s, off + 60),
            s_blob_table_size: le_u32_at(s, off + 64),
            s_extended_blob_table_entries: le_u32_at(s, off + 68),
            s_extended_blob_table_offset: le_u64_at(s, off + 72),
        }
    }

    /// The 8192 bytes that stand for the superblock on disk: 80 bytes of fields, then
    /// zeros.
    pub open spec fn encoded(self) -> Seq<u8> {
        spec_u32_to_le_bytes(self.s_magic) + spec_u32_to_le_bytes(self.s_fs_version)
            + spec_u32_to_le_bytes(self.s_sb_size) + spec_u32_to_le_bytes(self.s_block_size)
            + spec_u64_to_le_bytes(self.s_flags) + spec_u64_to_le_bytes(self.s_inodes_count)
            + spec_u64_to_le_bytes(self.s_inode_table_offset) + spec_u64_to_le_bytes(
            self.s_prefetch_table_offset,
        ) + spec_u64_to_le_bytes(self.s_blob_table_offset) + spec_u32_to_le_bytes(
            self.s_inode_table_entries,
        ) + spec_u32_to_le_bytes(self.s_prefetch_table_entries) + spec_u32_to_le_bytes(
            self.s_blob_table_size,
        ) + spec_u32_to_le_bytes(self.s_extended_blob_table_entries) + spec_u64_to_le_bytes(
            self.s_extended_blob_table_offset,
        ) + zeros(8112)
    }

    /// Size in bytes of the inode table.
    pub open spec fn inode_table_size(self) -> int {
        4 * self.s_inode_table_entries
    }

    /// Size in bytes of the prefetch table.
    pub open spec fn prefetch_table_size(self) -> int {
        4 * self.s_prefetch_table_entries
    }

    /// Size in bytes of the extended blob table; zero where the image has none.
    pub open spec fn extended_blob_table_size(self) -> int {
        if self.s_extended_blob_table_offset == 0 {
            0
        } else {
            64 * self.s_extended_blob_table_entries
        }
    }

    /// Whether the superblock is that of a bootstrap of `len` bytes whose tables are where
    /// it says: the magic number, the version and the recorded size are right, every table
    /// that is present lies behind the superblock and inside the stream, and no two
    /// tables overlap. The inode table must lie inside the stream even where it is empty.
    pub open spec fn consistent(self, len: int) -> bool {
        &&& self.s_magic == RAFSV5_SUPER_MAGIC
        &&& RAFS_SUPER_VERSION_V4 <= self.s_fs_version <= RAFS_SUPER_VERSION_V5
        &&& self.s_sb_size == 8192
        &&& table_in_bounds(self.s_inode_table_offset as int, self.inode_table_size(), len)
        &&& self.s_prefetch_table_entries > 0 ==> table_in_bounds(
            self.s_prefetch_table_offset as int,
            self.prefetch_table_size(),
            len,
        )
        &&& self.s_blob_table_size > 0 ==> table_in_bounds(
            self.s_blob_table_offset as int,
            self.s_blob_table_size as int,
            len,
        )
        &&& self.s_extended_blob_table_offset > 0 ==> table_in_bounds(
            self.s_extended_blob_table_offset as int,
            self.extended_blob_table_size(),
            len,
        )
        &&& tables_disjoint(
            self.s_inode_table_offset as int,
            self.inode_table_size(),
            self.s_prefetch_table_offset as int,
            self.prefetch_table_size(),
        )
        &&& tables_disjoint(
            self.s_inode_table_offset as int,
            self.inode_table_size(),
            self.s_blob_table_offset as int,
            self.s_blob_table_size as int,
        )
        &&& tables_disjoint(
            self.s_inode_table_offset as int,
            self.inode_table_size(),
            self.s_extended_blob_table_offset as int,
            self.extended_blob_table_size(),
        )
        &&& tables_disjoint(
            self.s_prefetch_table_offset as int,
            self.prefetch_table_size(),
            self.s_blob_table_offset as int,
            self.s_blob_table_size as int,
        )
        &&& tables_disjoint(
            self.s_prefetch_table_offset as int,
            self.prefetch_table_size(),
            self.s_extended_blob_table_offset as int,
            self.extended_blob_table_size(),
        )
        &&& tables_disjoint(
            self.s_blob_table_offset as int,
            self.s_blob_table_size as int,
            self.s_extended_blob_table_offset as int,
            self.extended_blob_table_size(),
        )
    }

    /// A superblock of the newest version that records no table yet.
    pub fn new() -> (sb: Self)
        ensures
            sb == (RafsV5SuperBlock {
                s_magic: RAFSV5_SUPER_MAGIC,
                s_fs_version: RAFS_SUPER_VERSION_V5,
                s_sb_size: 8192,
                s_block_size: 0,
                s_flags: 0,
                s_inodes_count: 0,
                s_inode_table_offset: 0,
                s_prefetch_table_offset: 0,
                s_blob_table_offset: 0,
                s_inode_table_entries: 0,
                s_prefetch_table_entries: 0,
                s_blob_table_size: 0,
                s_extended_blob_table_entries: 0,
                s_extended_blob_table_offset: 0,
            }),
    {
        RafsV5SuperBlock {
            s_magic: RAFSV5_SUPER_MAGIC,
            s_fs_version: RAFS_SUPER_VERSION_V5,
            s_sb_size: 8192,
            s_block_size: 0,
            s_flags: 0,
            s_inodes_count: 0,
            s_inode_table_offset: 0,
            s_prefetch_table_offset: 0,
            s_blob_table_offset: 0,
            s_inode_table_entries: 0,
            s_prefetch_table_entries: 0,
            s_blob_table_size: 0,
            s_extended_blob_table_entries: 0,
            s_extended_blob_table_offset: 0,
        }
    }

    /// Decodes the superblock at the reader's position and advances past its 8192 bytes.
    /// Fails with `CorruptFormat`, changing nothing, where fewer bytes are left.
    pub fn load(&mut self, r: &mut RafsIoReader) -> (res: Result<(), RafsError>)
        ensures
            final(r).bytes() == old(r).bytes(),
            0 <= old(r).position() <= old(r).bytes().len(),
            res is Ok <==> old(r).position() + 8192 <= old(r).bytes().len(),
            res is Ok ==> *final(self) == Self::decoded(old(r).bytes(), old(r).position())
                && final(r).position() == old(r).position() + 8192,
            res is Err ==> res->Err_0 == RafsError::CorruptFormat && *final(self) == *old(self)
                && final(r).position() == old(r).position(),
    {
        let ghost s = r.bytes();
        let ghost off = r.position();
        let b = match r.read_exact(RAFSV5_SUPERBLOCK_SIZE) {
            Ok(b) => b,
            Err(e) => {
                return Err(e);
            },
        };
        let sb = RafsV5SuperBlock {
            s_magic: get_le_u32(b, 0),
            s_fs_version: get_le_u32(b, 4),
            s_sb_size: get_le_u32(b, 8),
            s_block_size: get_le_u32(b, 12),
            s_flags: get_le_u64(b, 16),
            s_inodes_count: get_le_u64(b, 24),
            s_inode_table_offset: get_le_u64(b, 32),
            s_prefetch_table_offset: get_le_u64(b, 40),
            s_blob_table_offset: get_le_u64(b, 48),
            s_inode_table_entries: get_le_u32(b, 56),
            s_prefetch_table_entries: get_le_u32(b, 60),
            s_blob_table_size: get_le_u32(b, 64),
            s_extended_blob_table_entries: get_le_u32(b, 68),
            s_extended_blob_table_offset: get_le_u64(b, 72),
        };
        proof {
            Self::lemma_decoded_window(s, off);
        }
        *self = sb;
        Ok(())
    }

    /// Appends the 8192 bytes of the superblock to `buf`.
    pub fn store(&self, buf: &mut Vec<u8>)
        ensures
            final(buf)@ == old(buf)@ + self.encoded(),
    {
        let ghost before = buf@;
        put_le_u32(buf, self.s_magic);
        put_le_u32(buf, self.s_fs_version);
        put_le_u32(buf, self.s_sb_size);
        put_le_u32(buf, self.s_block_size);
        put_le_u64(buf, self.s_flags);
        put_le_u64(buf, self.s_inodes_count);
        put_le_u64(buf, self.s_inode_table_offset);
        put_le_u64(buf, self.s_prefetch_table_offset);
        put_le_u64(buf, self.s_blob_table_offset);
        put_le_u32(buf, self.s_inode_table_entries);
        put_le_u32(buf, self.s_prefetch_table_entries);
        put_le_u32(buf, self.s_blob_table_size);
        put_le_u32(buf, self.s_extended_blob_table_entries);
        put_le_u64(buf, self.s_extended_blob_table_offset);
        put_zeros(buf, RAFSV5_SUPERBLOCK_SIZE - RAFSV5_SUPERBLOCK_USED_SIZE);
        assert(buf@ =~= before + self.encoded());
    }

    /// Checks the superblock against the length of the stream it was read from. Fails
    /// with `CorruptFormat` exactly where the superblock is not consistent with it.
    pub fn validate(&self, len: u64) -> (res: Result<(), RafsError>)
        ensures
            res is Ok <==> self.consistent(len as int),
            res is Err ==> res->Err_0 == RafsError::CorruptFormat,
    {
        if self.s_magic != RAFSV5_SUPER_MAGIC || self.s_fs_version < RAFS_SUPER_VERSION_V4
            || self.s_fs_version > RAFS_SUPER_VERSION_V5 || self.s_sb_size != 8192 {
            return Err(RafsError::CorruptFormat);
        }
        let it_off = self.s_inode_table_offset;
        let it_size = self.s_inode_table_entries as u64 * RAFSV5_TABLE_ENTRY_SIZE;
        let pt_off = self.s_prefetch_table_offset;
        let pt_size = self.s_prefetch_table_entries as u64 * RAFSV5_TABLE_ENTRY_SIZE;
        let bt_off = self.s_blob_table_offset;
        let bt_size = self.s_blob_table_size as u64;
        let et_off = self.s_extended_blob_table_offset;
        let et_size = if et_off == 0 {
            0
        } else {
            self.s_extended_blob_table_entries as u64 * 64
        };
        if !in_bounds(it_off, it_size, len) {
            return Err(RafsError::CorruptFormat);
        }
        if pt_size > 0 && !in_bounds(pt_off, pt_size, len) {
            return Err(RafsError::CorruptFormat);
        }
        if bt_size > 0 && !in_bounds(bt_off, bt_size, len) {
            return Err(RafsError::CorruptFormat);
        }
        if et_off > 0 && !in_bounds(et_off, et_size, len) {
            return Err(RafsError::CorruptFormat);
        }
        if !disjoint(it_off, it_size, pt_off, pt_size) || !disjoint(
            it_off,
            it_size,
            bt_off,
            bt_size,
        ) || !disjoint(it_off, it_size, et_off, et_size) || !disjoint(
            pt_off,
            pt_size,
            bt_off,
            bt_size,
        ) || !disjoint(pt_off, pt_size, et_off, et_size) || !disjoint(
            bt_off,
            bt_size,
            et_off,
            et_size,
        ) {
            return Err(RafsError::CorruptFormat);
        }
        Ok(())
    }

    /// The format version.
    pub fn version(&self) -> (v: u32)
        ensures
            v == self.s_fs_version,
    {
        self.s_fs_version
    }

    /// The global flags.
    pub fn flags(&self) -> (v: u64)
        ensures
            v == self.s_flags,
    {
        self.s_flags
    }

    /// The number of distinct inodes.
    pub fn inodes_count(&self) -> (v: u64)
        ensures
            v == self.s_inodes_count,
    {
        self.s_inodes_count
    }

    /// Decoding depends only on the first 80 bytes of the superblock.
    pub proof fn lemma_decoded_window(s: Seq<u8>, off: int)
        requires
            0 <= off,
            off + 8192 <= s.len(),
        ensures
            Self::decoded(s.subrange(off, off + 8192), 0) == Self::decoded(s, off),
    {
        let w = s.subrange(off, off + 8192);
        assert(w.subrange(0, 4) =~= s.subrange(off, off + 4));
        assert(w.subrange(4, 8) =~= s.subrange(off + 4, off + 8));
        assert(w.subrange(8, 12) =~= s.subrange(off + 8, off + 12));
        assert(w.subrange(12, 16) =~= s.subrange(off + 12, off + 16));
        assert(w.subrange(16, 24) =~= s.subrange(off + 16, off + 24));
        assert(w.subrange(24, 32) =~= s.subrange(off + 24, off + 32));
        assert(w.subrange(32, 40) =~= s.subrange(off + 32, off + 40));
        assert(w.subrange(40, 48) =~= s.subrange(off + 40, off + 48));
        assert(w.subrange(48, 56) =~= s.subrange(off + 48, off + 56));
        assert(w.subrange(56, 60) =~= s.subrange(off + 56, off + 60));
        assert(w.subrange(60, 64) =~= s.subrange(off + 60, off + 64));
        assert(w.subrange(64, 68) =~= s.subrange(off + 64, off + 68));
        assert(w.subrange(68, 72) =~= s.subrange(off + 68, off + 72));
        assert(w.subrange(72, 80) =~= s.subrange(off + 72, off + 80));
    }

    /// A superblock that is encoded and then decoded is unchanged in every field.
    pub proof fn lemma_roundtrip(self)
        ensures
            self.encoded().len() == 8192,
            Self::decoded(self.encoded(), 0) == self,
    {
        lemma_auto_spec_u32_to_from_le_bytes();
        lemma_auto_spec_u64_to_from_le_bytes();
        let e = self.encoded();
        assert(e.subrange(0, 4) =~= spec_u32_to_le_bytes(self.s_magic));
        assert(e.subrange(4, 8) =~= spec_u32_to_le_bytes(self.s_fs_version));
        assert(e.subrange(8, 12) =~= spec_u32_to_le_bytes(self.s_sb_size));
        assert(e.subrange(12, 16) =~= spec_u32_to_le_bytes(self.s_block_size));
        assert(e.subrange(16, 24) =~= spec_u64_to_le_bytes(self.s_flags));
        assert(e.subrange(24, 32) =~= spec_u64_to_le_bytes(self.s_inodes_count));
        assert(e.subrange(32, 40) =~= spec_u64_to_le_bytes(self.s_inode_table_offset));
        assert(e.subrange(40, 48) =~= spec_u64_to_le_bytes(self.s_prefetch_table_offset));
        assert(e.subrange(48, 56) =~= spec_u64_to_le_bytes(self.s_blob_table_offset));
        assert(e.subrange(56, 60) =~= spec_u32_to_le_bytes(self.s_inode_table_entries));
        assert(e.subrange(60, 64) =~= spec_u32_to_le_bytes(self.s_prefetch_table_entries));
        assert(e.subrange(64, 68) =~= spec_u32_to_le_bytes(self.s_blob_table_size));
        assert(e.subrange(68, 72) =~= spec_u32_to_le_bytes(self.s_extended_blob_table_entries));
        assert(e.subrange(72, 80) =~= spec_u64_to_le_bytes(self.s_extended_blob_table_offset));
    }
}

/// Tells whether a table of `size` bytes at `off` lies behind the superblock and inside a
/// stream of `len` bytes.
fn in_bounds(off: u64, size: u64, len: u64) -> (r: bool)
    ensures
        r == table_in_bounds(off as int, size as int, len as int),
{
    off >= 8192 && off <= len && size <= len - off
}

/// Tells whether two tables share no byte.
fn disjoint(off1: u64, size1: u64, off2: u64, size2: u64) -> (r: bool)
    requires
        off1 + size1 <= u64::MAX,
        off2 + size2 <= u64::MAX,
    ensures
        r == tables_disjoint(off1 as int, size1 as int, off2 as int, size2 as int),
{
    size1 == 0 || size2 == 0 || off1 + size1 <= off2 || off2 + size2 <= off1
}

/// The table offsets and sizes of a superblock, kept for the lifetime of an open image.
#[derive(Clone, Copy, Debug, PartialEq, Eq, Structural)]
pub struct RafsMeta {
    pub inode_table_offset: u64,
    pub inode_table_entries: u32,
    pub prefetch_table_offset: u64,
    pub prefetch_table_entries: u32,
    pub blob_table_offset: u64,
    pub blob_table_size: u32,
    pub extended_blob_table_offset: u64,
    pub extended_blob_table_entries: u32,
}

impl RafsMeta {
    /// What a superblock says of its tables.
    pub open spec fn of(sb: RafsV5SuperBlock) -> RafsMeta {
        RafsMeta {
            inode_table_offset: sb.s_inode_table_offset,
            inode_table_entries: sb.s_inode_table_entries,
            prefetch_table_offset: sb.s_prefetch_table_offset,
            prefetch_table_entries: sb.s_prefetch_table_entries,
            blob_table_offset: sb.s_blob_table_offset,
            blob_table_size: sb.s_blob_table_size,
            extended_blob_table_offset: sb.s_extended_blob_table_offset,
            extended_blob_table_entries: sb.s_extended_blob_table_entries,
        }
    }
}

impl From<&RafsV5SuperBlock> for RafsMeta {
    fn from(sb: &RafsV5SuperBlock) -> (m: Self) {
        RafsMeta {
            inode_table_offset: sb.s_inode_table_offset,
            inode_table_entries: sb.s_inode_table_entries,
            prefetch_table_offset: sb.s_prefetch_table_offset,
            prefetch_table_entries: sb.s_prefetch_table_entries,
            blob_table_offset: sb.s_blob_table_offset,
            blob_table_size: sb.s_blob_table_size,
            extended_blob_table_offset: sb.s_extended_blob_table_offset,
            extended_blob_table_entries: sb.s_extended_blob_table_entries,
        }
    }
}

impl FromSpecImpl<&RafsV5SuperBlock> for RafsMeta {
    open spec fn obeys_from_spec() -> bool {
        true
    }

    open spec fn from_spec(sb: &RafsV5SuperBlock) -> RafsMeta {
        RafsMeta::of(*sb)
    }
}

} // verus!
