//! The fixed-size inode record and the variable-length fields that follow it.
//!
//! An inode record is a 128-byte header, then the file name, then the symlink target if
//! there is one, each padded to the alignment unit. An extended-attribute block and, for
//! regular files, the chunk records follow.

use vstd::prelude::*;
use vstd::bytes::*;
use crate::bytes::{
    align_to_rafs, align_up, copy_range, get_le_u16, get_le_u32, get_le_u64, le_u16_at,
    le_u32_at, le_u64_at, padding_for, put_bytes, put_le_u16, put_le_u32, put_le_u64, put_zeros, zeros,
};
use crate::digest::RafsDigest;
use crate::error::RafsError;
use crate::reader::RafsIoReader;

verus! {

/// Size in bytes of the inode header.
pub const RAFSV5_INODE_SIZE: usize = 128;

/// Flag bit: the inode is a symlink.
pub const RAFSV5_INODE_FLAG_SYMLINK: u64 = 0x1;

/// Flag bit: the inode is a hardlink.
pub const RAFSV5_INODE_FLAG_HARDLINK: u64 = 0x2;

/// Flag bit: an extended-attribute block follows the inode record.
pub const RAFSV5_INODE_FLAG_XATTR: u64 = 0x4;

/// Flag bit: the file has holes.
pub const RAFSV5_INODE_FLAG_HAS_HOLE: u64 = 0x8;

/// Mask of the file-type bits of a mode.
pub open spec fn mode_type_mask() -> u32 {
    0xF000u32
}

/// File-type bits of a directory.
pub open spec fn mode_type_dir() -> u32 {
    0x4000u32
}

/// File-type bits of a regular file.
pub open spec fn mode_type_reg() -> u32 {
    0x8000u32
}

/// File-type bits of a symbolic link.
pub open spec fn mode_type_symlink() -> u32 {
    0xA000u32
}

/// The file-type mask `S_IFMT` of the C library. Its value on Linux, octal 170000, is
/// taken on trust.
#[verifier::external_body]
pub(crate) fn s_ifmt() -> (r: u32)
    ensures
        r == mode_type_mask(),
{
    libc::S_IFMT
}

/// The directory type `S_IFDIR` of the C library. Its value on Linux, octal 40000, is
/// taken on trust.
#[verifier::external_body]
pub(crate) fn s_ifdir() -> (r: u32)
    ensures
        r == mode_type_dir(),
{
    libc::S_IFDIR
}

/// The regular-file type `S_IFREG` of the C library. Its value on Linux, octal 100000, is
/// taken on trust.
#[verifier::external_body]
pub(crate) fn s_ifreg() -> (r: u32)
    ensures
        r == mode_type_reg(),
{
    libc::S_IFREG
}

/// The symlink type `S_IFLNK` of the C library. Its value on Linux, octal 120000, is
/// taken on trust.
#[verifier::external_body]
pub(crate) fn s_iflnk() -> (r: u32)
    ensures
        r == mode_type_symlink(),
{
    libc::S_IFLNK
}

/// Whether `mode` is that of a directory.
pub open spec fn mode_is_dir(mode: u32) -> bool {
    mode & mode_type_mask() == mode_type_dir()
}

/// Whether `mode` is that of a regular file.
pub open spec fn mode_is_reg(mode: u32) -> bool {
    mode & mode_type_mask() == mode_type_reg()
}

/// Whether `mode` is that of a symbolic link.
pub open spec fn mode_is_symlink(mode: u32) -> bool {
    mode & mode_type_mask() == mode_type_symlink()
}

/// Tells whether `mode` is that of a directory.
pub fn is_dir_mode(mode: u32) -> (r: bool)
    ensures
        r == mode_is_dir(mode),
{
    mode & s_ifmt() == s_ifdir()
}

/// Tells whether `mode` is that of a regular file.
pub fn is_reg_mode(mode: u32) -> (r: bool)
    ensures
        r == mode_is_reg(mode),
{
    mode & s_ifmt() == s_ifreg()
}

/// Tells whether `mode` is that of a symbolic link.
pub fn is_symlink_mode(mode: u32) -> (r: bool)
    ensures
        r == mode_is_symlink(mode),
{
    mode & s_ifmt() == s_iflnk()
}

/// The three file types exclude one another.
pub proof fn lemma_mode_types_disjoint(mode: u32)
    ensures
        !(mode_is_dir(mode) && mode_is_reg(mode)),
        !(mode_is_dir(mode) && mode_is_symlink(mode)),
        !(mode_is_reg(mode) && mode_is_symlink(mode)),
{
}

/// The header of an inode record.
#[derive(Clone, Copy, Debug, PartialEq, Eq)]
pub struct RafsV5Inode {
    /// Digest over the digests of the inode's chunks or children.
    pub i_digest: RafsDigest,
    /// Inode number of the parent; zero for the root.
    pub i_parent: u64,
    /// Inode number.
    pub i_ino: u64,
    pub i_uid: u32,
    pub i_gid: u32,
    pub i_projid: u32,
    pub i_mode: u32,
    pub i_size: u64,
    pub i_blocks: u64,
    /// Flag bits, see the `RAFSV5_INODE_FLAG_` constants.
    pub i_flags: u64,
    pub i_nlink: u32,
    /// For a directory, one more than the table index of its first child.
    pub i_child_index: u32,
    /// For a directory the number of entries, for a regular file the number of chunks.
    pub i_child_count: u32,
    /// Length in bytes of the name that follows the header.
    pub i_name_size: u16,
    /// Length in bytes of the symlink target that follows the name.
    pub i_symlink_size: u16,
    pub i_rdev: u32,
    pub i_mtime_nsec: u32,
    pub i_mtime: u64,
    /// Reserved bytes at the end of the header.
    pub i_reserved: u64,
}

/// An inode header together with the name and symlink target stored after it.
#[derive(Clone, Debug, PartialEq, Eq)]
pub struct InodeRecord {
    pub inode: RafsV5Inode,
    pub name: Vec<u8>,
    pub symlink: Vec<u8>,
}

impl RafsV5Inode {
    /// The header stored in the 128 bytes of `s` that start at `off`.
    pub open spec fn decoded(s: Seq<u8>, off: int) -> RafsV5Inode {
        RafsV5Inode {
            i_digest: RafsDigest::decoded(s, off),
            i_parent: le_u64_at(s, off + 32),
            i_ino: le_u64_at(s, off + 40),
            i_uid: le_u32_at(s, off + 48),
            i_gid: le_u32_at(s, off + 52),
            i_projid: le_u32_at(s, off + 56),
            i_mode: le_u32_at(s, off + 60),
            i_size: le_u64_at(s, off + 64),
            i_blocks: le_u64_at(s, off + 72),
            i_flags: le_u64_at(s, off + 80),
            i_nlink: le_u32_at(s, off + 88),
            i_child_index: le_u32_at(s, off + 92),
            i_child_count: le_u32_at(s, off + 96),
            i_name_size: le_u16_at(s, off + 100),
            i_symlink_size: le_u16_at(s, off + 102),
            i_rdev: le_u32_at(s, off + 104),
            i_mtime_nsec: le_u32_at(s, off + 108),
            i_mtime: le_u64_at(s, off + 112),
            i_reserved: le_u64_at(s, off + 120),
        }
    }

    /// The 128 bytes that stand for the header on disk.
    pub open spec fn encoded(self) -> Seq<u8> {
        self.i_digest@ + spec_u64_to_le_bytes(self.i_parent) + spec_u64_to_le_bytes(self.i_ino)
            + spec_u32_to_le_bytes(self.i_uid) + spec_u32_to_le_bytes(self.i_gid)
            + spec_u32_to_le_bytes(self.i_projid) + spec_u32_to_le_bytes(self.i_mode)
            + spec_u64_to_le_bytes(self.i_size) + spec_u64_to_le_bytes(self.i_blocks)
            + spec_u64_to_le_bytes(self.i_flags) + spec_u32_to_le_bytes(self.i_nlink)
            + spec_u32_to_le_bytes(self.i_child_index) + spec_u32_to_le_bytes(self.i_child_count)
            + spec_u16_to_le_bytes(self.i_name_size) + spec_u16_to_le_bytes(self.i_symlink_size)
            + spec_u32_to_le_bytes(self.i_rdev) + spec_u32_to_le_bytes(self.i_mtime_nsec)
            + spec_u64_to_le_bytes(self.i_mtime) + spec_u64_to_le_bytes(self.i_reserved)
    }

    /// Whether the inode is a directory.
    pub open spec fn spec_is_dir(&self) -> bool {
        mode_is_dir(self.i_mode)
    }

    /// Whether the inode is a regular file.
    pub open spec fn spec_is_reg(&self) -> bool {
        mode_is_reg(self.i_mode)
    }

    /// Whether the inode is a symbolic link.
    pub open spec fn spec_is_symlink(&self) -> bool {
        mode_is_symlink(self.i_mode)
    }

    /// Whether an extended-attribute block follows the record.
    pub open spec fn spec_has_xattr(&self) -> bool {
        self.i_flags & RAFSV5_INODE_FLAG_XATTR == RAFSV5_INODE_FLAG_XATTR
    }

    /// Size in bytes of the header with its padded name and symlink target.
    pub open spec fn spec_size(&self) -> int {
        128 + align_up(self.i_name_size as int) + align_up(self.i_symlink_size as int)
    }

    /// A header with every field zero.
    pub fn new() -> (i: Self)
        ensures
            i.i_parent == 0 && i.i_ino == 0 && i.i_uid == 0 && i.i_gid == 0 && i.i_projid == 0,
            i.i_mode == 0 && i.i_size == 0 && i.i_blocks == 0 && i.i_flags == 0 && i.i_nlink == 0,
            i.i_child_index == 0 && i.i_child_count == 0 && i.i_name_size == 0,
            i.i_symlink_size == 0 && i.i_rdev == 0 && i.i_mtime_nsec == 0 && i.i_mtime == 0,
            i.i_reserved == 0,
            i.i_digest == (RafsDigest { w0: 0, w1: 0, w2: 0, w3: 0 }),
    {
        RafsV5Inode {
            i_digest: RafsDigest::new(),
            i_parent: 0,
            i_ino: 0,
            i_uid: 0,
            i_gid: 0,
            i_projid: 0,
            i_mode: 0,
            i_size: 0,
            i_blocks: 0,
            i_flags: 0,
            i_nlink: 0,
            i_child_index: 0,
            i_child_count: 0,
            i_name_size: 0,
            i_symlink_size: 0,
            i_rdev: 0,
            i_mtime_nsec: 0,
            i_mtime: 0,
            i_reserved: 0,
        }
    }

    /// Decodes the header at the reader's position and advances past it. Fails with
    /// `CorruptFormat`, changing nothing, where fewer than 128 bytes are left.
    pub fn load(&mut self, r: &mut RafsIoReader) -> (res: Result<(), RafsError>)
        ensures
            final(r).bytes() == old(r).bytes(),
            res is Ok <==> old(r).position() + 128 <= old(r).bytes().len(),
            res is Ok ==> *final(self) == Self::decoded(old(r).bytes(), old(r).position())
                && final(r).position() == old(r).position() + 128,
            res is Err ==> res->Err_0 == RafsError::CorruptFormat && *final(self) == *old(self)
                && final(r).position() == old(r).position(),
    {
        let ghost s = r.bytes();
        let ghost off = r.position();
        let b = match r.read_exact(RAFSV5_INODE_SIZE) {
            Ok(b) => b,
            Err(e) => {
                return Err(e);
            },
        };
        let digest = RafsDigest::from_bytes(b, 0);
        let inode = RafsV5Inode {
            i_digest: digest,
            i_parent: get_le_u64(b, 32),
            i_ino: get_le_u64(b, 40),
            i_uid: get_le_u32(b, 48),
            i_gid: get_le_u32(b, 52),
            i_projid: get_le_u32(b, 56),
            i_mode: get_le_u32(b, 60),
            i_size: get_le_u64(b, 64),
            i_blocks: get_le_u64(b, 72),
            i_flags: get_le_u64(b, 80),
            i_nlink: get_le_u32(b, 88),
            i_child_index: get_le_u32(b, 92),
            i_child_count: get_le_u32(b, 96),
            i_name_size: get_le_u16(b, 100),
            i_symlink_size: get_le_u16(b, 102),
            i_rdev: get_le_u32(b, 104),
            i_mtime_nsec: get_le_u32(b, 108),
            i_mtime: get_le_u64(b, 112),
            i_reserved: get_le_u64(b, 120),
        };
        proof {
            Self::lemma_decoded_window(s, off);
        }
        *self = inode;
        Ok(())
    }

    /// Tells whether the inode is a directory.
    #[verifier::when_used_as_spec(spec_is_dir)]
    pub fn is_dir(&self) -> (r: bool)
        ensures
            r == self.spec_is_dir(),
    {
        is_dir_mode(self.i_mode)
    }

    /// Tells whether the inode is a regular file.
    #[verifier::when_used_as_spec(spec_is_reg)]
    pub fn is_reg(&self) -> (r: bool)
        ensures
            r == self.spec_is_reg(),
    {
        is_reg_mode(self.i_mode)
    }

    /// Tells whether the inode is a symbolic link.
    #[verifier::when_used_as_spec(spec_is_symlink)]
    pub fn is_symlink(&self) -> (r: bool)
        ensures
            r == self.spec_is_symlink(),
    {
        is_symlink_mode(self.i_mode)
    }

    /// Tells whether the inode is one of several links to a file: it is no directory and
    /// its link count is above one.
    pub fn is_hardlink(&self) -> (r: bool)
        ensures
            r == (!self.spec_is_dir() && self.i_nlink > 1),
    {
        !self.is_dir() && self.i_nlink > 1
    }

    /// Tells whether an extended-attribute block follows the record.
    #[verifier::when_used_as_spec(spec_has_xattr)]
    pub fn has_xattr(&self) -> (r: bool)
        ensures
            r == self.spec_has_xattr(),
    {
        self.i_flags & RAFSV5_INODE_FLAG_XATTR == RAFSV5_INODE_FLAG_XATTR
    }

    /// Tells whether the file has holes.
    pub fn has_hole(&self) -> (r: bool)
        ensures
            r == (self.i_flags & RAFSV5_INODE_FLAG_HAS_HOLE == RAFSV5_INODE_FLAG_HAS_HOLE),
    {
        self.i_flags & RAFSV5_INODE_FLAG_HAS_HOLE == RAFSV5_INODE_FLAG_HAS_HOLE
    }

    /// Size in bytes of the header with its padded name and symlink target.
    pub fn size(&self) -> (n: u64)
        ensures
            n == self.spec_size(),
            128 <= n <= 128 + 65536 + 65536,
    {
        128 + align_to_rafs(self.i_name_size as u64) + align_to_rafs(self.i_symlink_size as u64)
    }

    /// Reads the file name, which starts at the reader's position, and advances past its
    /// bytes (not past its padding). Fails with `CorruptFormat`, moving nothing, where the
    /// stream ends before the name does.
    pub fn file_name(&self, r: &mut RafsIoReader) -> (res: Result<Vec<u8>, RafsError>)
        ensures
            final(r).bytes() == old(r).bytes(),
            0 <= old(r).position() <= old(r).bytes().len(),
            res is Ok <==> old(r).position() + self.i_name_size <= old(r).bytes().len(),
            res is Ok ==> res->Ok_0@ == old(r).bytes().subrange(
                old(r).position(),
                old(r).position() + self.i_name_size,
            ) && final(r).position() == old(r).position() + self.i_name_size,
            res is Err ==> res->Err_0 == RafsError::CorruptFormat && final(r).position() == old(
                r,
            ).position(),
    {
        match r.read_exact(self.i_name_size as usize) {
            Ok(b) => Ok(copy_range(b, 0, b.len())),
            Err(e) => Err(e),
        }
    }

    /// Appends the 128 bytes of the header to `buf`.
    pub fn store(&self, buf: &mut Vec<u8>)
        ensures
            final(buf)@ == old(buf)@ + self.encoded(),
    {
        let ghost before = buf@;
        self.i_digest.store(buf);
        put_le_u64(buf, self.i_parent);
        put_le_u64(buf, self.i_ino);
        put_le_u32(buf, self.i_uid);
        put_le_u32(buf, self.i_gid);
        put_le_u32(buf, self.i_projid);
        put_le_u32(buf, self.i_mode);
        put_le_u64(buf, self.i_size);
        put_le_u64(buf, self.i_blocks);
        put_le_u64(buf, self.i_flags);
        put_le_u32(buf, self.i_nlink);
        put_le_u32(buf, self.i_child_index);
        put_le_u32(buf, self.i_child_count);
        put_le_u16(buf, self.i_name_size);
        put_le_u16(buf, self.i_symlink_size);
        put_le_u32(buf, self.i_rdev);
        put_le_u32(buf, self.i_mtime_nsec);
        put_le_u64(buf, self.i_mtime);
        put_le_u64(buf, self.i_reserved);
        assert(buf@ =~= before + self.encoded());
    }

    /// A header that is encoded and then decoded is unchanged in every field.
    pub proof fn lemma_roundtrip(self)
        ensures
            self.encoded().len() == 128,
            Self::decoded(self.encoded(), 0) == self,
    {
        lemma_auto_spec_u16_to_from_le_bytes();
        lemma_auto_spec_u32_to_from_le_bytes();
        lemma_auto_spec_u64_to_from_le_bytes();
        let e = self.encoded();
        assert(e.subrange(0, 8) =~= spec_u64_to_le_bytes(self.i_digest.w0));
        assert(e.subrange(8, 16) =~= spec_u64_to_le_bytes(self.i_digest.w1));
        assert(e.subrange(16, 24) =~= spec_u64_to_le_bytes(self.i_digest.w2));
        assert(e.subrange(24, 32) =~= spec_u64_to_le_bytes(self.i_digest.w3));
        assert(e.subrange(32, 40) =~= spec_u64_to_le_bytes(self.i_parent));
        assert(e.subrange(40, 48) =~= spec_u64_to_le_bytes(self.i_ino));
        assert(e.subrange(48, 52) =~= spec_u32_to_le_bytes(self.i_uid));
        assert(e.subrange(52, 56) =~= spec_u32_to_le_bytes(self.i_gid));
        assert(e.subrange(56, 60) =~= spec_u32_to_le_bytes(self.i_projid));
        assert(e.subrange(60, 64) =~= spec_u32_to_le_bytes(self.i_mode));
        assert(e.subrange(64, 72) =~= spec_u64_to_le_bytes(self.i_size));
        assert(e.subrange(72, 80) =~= spec_u64_to_le_bytes(self.i_blocks));
        assert(e.subrange(80, 88) =~= spec_u64_to_le_bytes(self.i_flags));
        assert(e.subrange(88, 92) =~= spec_u32_to_le_bytes(self.i_nlink));
        assert(e.subrange(92, 96) =~= spec_u32_to_le_bytes(self.i_child_index));
        assert(e.subrange(96, 100) =~= spec_u32_to_le_bytes(self.i_child_count));
        assert(e.subrange(100, 102) =~= spec_u16_to_le_bytes(self.i_name_size));
        assert(e.subrange(102, 104) =~= spec_u16_to_le_bytes(self.i_symlink_size));
        assert(e.subrange(104, 108) =~= spec_u32_to_le_bytes(self.i_rdev));
        assert(e.subrange(108, 112) =~= spec_u32_to_le_bytes(self.i_mtime_nsec));
        assert(e.subrange(112, 120) =~= spec_u64_to_le_bytes(self.i_mtime));
        assert(e.subrange(120, 128) =~= spec_u64_to_le_bytes(self.i_reserved));
    }

    /// Decoding depends only on the 128 bytes of the header.
    pub proof fn lemma_decoded_window(s: Seq<u8>, off: int)
        requires
            0 <= off,
            off + 128 <= s.len(),
        ensures
            Self::decoded(s.subrange(off, off + 128), 0) == Self::decoded(s, off),
    {
        let w = s.subrange(off, off + 128);
        assert(w.subrange(0, 8) =~= s.subrange(off, off + 8));
        assert(w.subrange(8, 16) =~= s.subrange(off + 8, off + 16));
        assert(w.subrange(16, 24) =~= s.subrange(off + 16, off + 24));
        assert(w.subrange(24, 32) =~= s.subrange(off + 24, off + 32));
        assert(w.subrange(32, 40) =~= s.subrange(off + 32, off + 40));
        assert(w.subrange(40, 48) =~= s.subrange(off + 40, off + 48));
        assert(w.subrange(48, 52) =~= s.subrange(off + 48, off + 52));
        assert(w.subrange(52, 56) =~= s.subrange(off + 52, off + 56));
        assert(w.subrange(56, 60) =~= s.subrange(off + 56, off + 60));
        assert(w.subrange(60, 64) =~= s.subrange(off + 60, off + 64));
        assert(w.subrange(64, 72) =~= s.subrange(off + 64, off + 72));
        assert(w.subrange(72, 80) =~= s.subrange(off + 72, off + 80));
        assert(w.subrange(80, 88) =~= s.subrange(off + 80, off + 88));
        assert(w.subrange(88, 92) =~= s.subrange(off + 88, off + 92));
        assert(w.subrange(92, 96) =~= s.subrange(off + 92, off + 96));
        assert(w.subrange(96, 100) =~= s.subrange(off + 96, off + 100));
        assert(w.subrange(100, 102) =~= s.subrange(off + 100, off + 102));
        assert(w.subrange(102, 104) =~= s.subrange(off + 102, off + 104));
        assert(w.subrange(104, 108) =~= s.subrange(off + 104, off + 108));
        assert(w.subrange(108, 112) =~= s.subrange(off + 108, off + 112));
        assert(w.subrange(112, 120) =~= s.subrange(off + 112, off + 120));
        assert(w.subrange(120, 128) =~= s.subrange(off + 120, off + 128));
    }
}

impl InodeRecord {
    /// The name and the symlink target have the lengths that the header records.
    pub open spec fn wf(&self) -> bool {
        &&& self.name@.len() == self.inode.i_name_size
        &&& self.symlink@.len() == self.inode.i_symlink_size
    }

    /// The file name of the record that starts at `off` in `s`.
    pub open spec fn name_at(s: Seq<u8>, off: int) -> Seq<u8> {
        s.subrange(off + 128, off + 128 + RafsV5Inode::decoded(s, off).i_name_size)
    }

    /// The symlink target of the record that starts at `off` in `s`; empty where the
    /// header records no target.
    pub open spec fn symlink_at(s: Seq<u8>, off: int) -> Seq<u8> {
        let i = RafsV5Inode::decoded(s, off);
        let start = off + 128 + align_up(i.i_name_size as int);
        s.subrange(start, start + i.i_symlink_size)
    }

    /// Whether a whole record, header and padded fields, lies in `s` at `off`.
    pub open spec fn fits(s: Seq<u8>, off: int) -> bool {
        &&& 0 <= off
        &&& off + 128 <= s.len()
        &&& off + RafsV5Inode::decoded(s, off).spec_size() <= s.len()
    }

    /// The bytes that stand for the record on disk: the header, the name and the symlink
    /// target, the last two padded with zeros to the alignment unit.
    pub open spec fn encoded(&self) -> Seq<u8> {
        let n = self.name@.len() as int;
        let t = self.symlink@.len() as int;
        self.inode.encoded() + self.name@ + zeros((align_up(n) - n) as nat) + self.symlink@
            + zeros((align_up(t) - t) as nat)
    }

    /// Decodes the record at the reader's position and advances past it, padding
    /// included. Fails with `CorruptFormat`, moving nothing, where the stream ends before
    /// the record does.
    pub fn load(r: &mut RafsIoReader) -> (res: Result<InodeRecord, RafsError>)
        ensures
            final(r).bytes() == old(r).bytes(),
            res is Ok <==> Self::fits(old(r).bytes(), old(r).position()),
            res is Ok ==> {
                let rec = res->Ok_0;
                &&& rec.inode == RafsV5Inode::decoded(old(r).bytes(), old(r).position())
                &&& rec.name@ == Self::name_at(old(r).bytes(), old(r).position())
                &&& rec.symlink@ == Self::symlink_at(old(r).bytes(), old(r).position())
                &&& rec.wf()
                &&& final(r).position() == old(r).position() + rec.inode.spec_size()
            },
            res is Err ==> res->Err_0 == RafsError::CorruptFormat && final(r).position() == old(
                r,
            ).position(),
    {
        let start = r.offset();
        let total = r.len() as u64;
        let mut inode = RafsV5Inode::new();
        match inode.load(r) {
            Ok(()) => {},
            Err(e) => {
                return Err(e);
            },
        }
        let size = inode.size();
        if size > total - start {
            let back = r.seek_to_offset(start);
            return Err(RafsError::CorruptFormat);
        }
        let name_pad = align_to_rafs(inode.i_name_size as u64) - inode.i_name_size as u64;
        let link_pad = align_to_rafs(inode.i_symlink_size as u64) - inode.i_symlink_size as u64;
        let name = match r.read_exact(inode.i_name_size as usize) {
            Ok(b) => copy_range(b, 0, b.len()),
            Err(e) => {
                return Err(e);
            },
        };
        let skip_name = r.read_exact(name_pad as usize);
        let symlink = match r.read_exact(inode.i_symlink_size as usize) {
            Ok(b) => copy_range(b, 0, b.len()),
            Err(e) => {
                return Err(e);
            },
        };
        let skip_link = r.read_exact(link_pad as usize);
        Ok(InodeRecord { inode, name, symlink })
    }

    /// Appends the record to `buf`.
    pub fn store(&self, buf: &mut Vec<u8>)
        ensures
            final(buf)@ == old(buf)@ + self.encoded(),
    {
        let ghost before = buf@;
        let ghost header = self.inode.encoded();
        let name_pad = padding_for(self.name.len());
        let link_pad = padding_for(self.symlink.len());
        self.inode.store(buf);
        put_bytes(buf, self.name.as_slice());
        put_zeros(buf, name_pad);
        put_bytes(buf, self.symlink.as_slice());
        put_zeros(buf, link_pad);
        assert(buf@ == before + header + self.name@ + zeros(name_pad as nat) + self.symlink@
            + zeros(link_pad as nat));
        assert(buf@ =~= before + (header + self.name@ + zeros(name_pad as nat) + self.symlink@
            + zeros(link_pad as nat)));
    }

    /// A well-formed record that is encoded and then decoded is unchanged: the header in
    /// every field, the name and the symlink target byte for byte.
    pub proof fn lemma_roundtrip(self)
        requires
            self.wf(),
        ensures
            self.encoded().len() == self.inode.spec_size(),
            Self::fits(self.encoded(), 0),
            RafsV5Inode::decoded(self.encoded(), 0) == self.inode,
            Self::name_at(self.encoded(), 0) == self.name@,
            Self::symlink_at(self.encoded(), 0) == self.symlink@,
    {
        self.inode.lemma_roundtrip();
        let e = self.encoded();
        let h = self.inode.encoded();
        assert(e.subrange(0, 128) =~= h);
        RafsV5Inode::lemma_decoded_window(e, 0);
        assert(Self::name_at(e, 0) =~= self.name@);
        assert(Self::symlink_at(e, 0) =~= self.symlink@);
    }
}

} // verus!
