//! What every inode can be asked, whether it is held in memory or was decoded from a
//! bootstrap a moment ago.

use vstd::prelude::*;
use crate::bytes::copy_range;
use crate::digest::RafsDigest;
use crate::inode::{
    is_dir_mode, is_reg_mode, is_symlink_mode, mode_is_dir, mode_is_reg, mode_is_symlink,
    RAFSV5_INODE_FLAG_XATTR,
};
use crate::mock_inode::MockInode;
use crate::visitor::DirEntry;

verus! {

/// The questions that every kind of inode answers in the same way.
pub trait RafsInode {
    /// The mode bits of the inode.
    spec fn mode_bits(&self) -> u32;

    /// The number of links to the inode.
    spec fn link_count(&self) -> u32;

    /// The inode number.
    spec fn inode_number(&self) -> u64;

    /// The inode number of the parent; zero for the root.
    spec fn parent_number(&self) -> u64;

    /// The size of the file in bytes.
    spec fn byte_size(&self) -> u64;

    /// The flag bits of the inode.
    spec fn flag_bits(&self) -> u64;

    /// For a directory the number of entries, for a regular file the number of chunks.
    spec fn child_count(&self) -> u32;

    /// The digest of the inode.
    spec fn digest(&self) -> RafsDigest;

    /// The file name.
    spec fn name_bytes(&self) -> Seq<u8>;

    /// The device number.
    spec fn device(&self) -> u32;

    /// The project identifier.
    spec fn project(&self) -> u32;

    /// Tells whether the inode is a directory.
    fn is_dir(&self) -> (r: bool)
        ensures
            r == mode_is_dir(self.mode_bits()),
    ;

    /// Tells whether the inode is a regular file.
    fn is_reg(&self) -> (r: bool)
        ensures
            r == mode_is_reg(self.mode_bits()),
    ;

    /// Tells whether the inode is a symbolic link.
    fn is_symlink(&self) -> (r: bool)
        ensures
            r == mode_is_symlink(self.mode_bits()),
    ;

    /// Tells whether the inode is one of several links to a file: it is no directory and
    /// its link count is above one.
    fn is_hardlink(&self) -> (r: bool)
        ensures
            r == (!mode_is_dir(self.mode_bits()) && self.link_count() > 1),
    ;

    /// Tells whether the inode holds no data.
    fn is_empty_size(&self) -> (r: bool)
        ensures
            r == (self.byte_size() == 0),
    ;

    /// Tells whether the inode has extended attributes.
    fn has_xattr(&self) -> (r: bool)
        ensures
            r == (self.flag_bits() & RAFSV5_INODE_FLAG_XATTR == RAFSV5_INODE_FLAG_XATTR),
    ;

    /// The inode number.
    fn ino(&self) -> (v: u64)
        ensures
            v == self.inode_number(),
    ;

    /// The inode number of the parent.
    fn parent(&self) -> (v: u64)
        ensures
            v == self.parent_number(),
    ;

    /// The size of the file in bytes.
    fn size(&self) -> (v: u64)
        ensures
            v == self.byte_size(),
    ;

    /// The flag bits of the inode.
    fn flags(&self) -> (v: u64)
        ensures
            v == self.flag_bits(),
    ;

    /// For a directory the number of entries, for a regular file the number of chunks.
    fn get_child_count(&self) -> (v: u32)
        ensures
            v == self.child_count(),
    ;

    /// The digest of the inode.
    fn get_digest(&self) -> (d: RafsDigest)
        ensures
            d == self.digest(),
    ;

    /// The file name.
    fn name(&self) -> (n: Vec<u8>)
        ensures
            n@ == self.name_bytes(),
    ;

    /// The device number.
    fn rdev(&self) -> (v: u32)
        ensures
            v == self.device(),
    ;

    /// The project identifier.
    fn projid(&self) -> (v: u32)
        ensures
            v == self.project(),
    ;
}

impl RafsInode for MockInode {
    open spec fn mode_bits(&self) -> u32 {
        self.i_mode
    }

    open spec fn link_count(&self) -> u32 {
        self.i_nlink
    }

    open spec fn inode_number(&self) -> u64 {
        self.i_ino
    }

    open spec fn parent_number(&self) -> u64 {
        self.i_parent
    }

    open spec fn byte_size(&self) -> u64 {
        self.i_size
    }

    open spec fn flag_bits(&self) -> u64 {
        self.i_flags
    }

    open spec fn child_count(&self) -> u32 {
        self.i_child_cnt
    }

    open spec fn digest(&self) -> RafsDigest {
        self.i_digest
    }

    open spec fn name_bytes(&self) -> Seq<u8> {
        self.i_name@
    }

    open spec fn device(&self) -> u32 {
        self.i_rdev
    }

    open spec fn project(&self) -> u32 {
        self.i_projid
    }

    fn is_dir(&self) -> (r: bool) {
        is_dir_mode(self.i_mode)
    }

    fn is_reg(&self) -> (r: bool) {
        is_reg_mode(self.i_mode)
    }

    fn is_symlink(&self) -> (r: bool) {
        is_symlink_mode(self.i_mode)
    }

    fn is_hardlink(&self) -> (r: bool) {
        !is_dir_mode(self.i_mode) && self.i_nlink > 1
    }

    fn is_empty_size(&self) -> (r: bool) {
        self.i_size == 0
    }

    fn has_xattr(&self) -> (r: bool) {
        self.i_flags & RAFSV5_INODE_FLAG_XATTR == RAFSV5_INODE_FLAG_XATTR
    }

    fn ino(&self) -> (v: u64) {
        self.i_ino
    }

    fn parent(&self) -> (v: u64) {
        self.i_parent
    }

    fn size(&self) -> (v: u64) {
        self.i_size
    }

    fn flags(&self) -> (v: u64) {
        self.i_flags
    }

    fn get_child_count(&self) -> (v: u32) {
        self.i_child_cnt
    }

    fn get_digest(&self) -> (d: RafsDigest) {
        self.i_digest
    }

    fn name(&self) -> (n: Vec<u8>) {
        let n = copy_range(self.i_name.as_slice(), 0, self.i_name.len());
        assert(n@ =~= self.i_name@);
        n
    }

    fn rdev(&self) -> (v: u32) {
        self.i_rdev
    }

    fn projid(&self) -> (v: u32) {
        self.i_projid
    }
}

impl RafsInode for DirEntry {
    open spec fn mode_bits(&self) -> u32 {
        self.inode.i_mode
    }

    open spec fn link_count(&self) -> u32 {
        self.inode.i_nlink
    }

    open spec fn inode_number(&self) -> u64 {
        self.inode.i_ino
    }

    open spec fn parent_number(&self) -> u64 {
        self.inode.i_parent
    }

    open spec fn byte_size(&self) -> u64 {
        self.inode.i_size
    }

    open spec fn flag_bits(&self) -> u64 {
        self.inode.i_flags
    }

    open spec fn child_count(&self) -> u32 {
        self.inode.i_child_count
    }

    open spec fn digest(&self) -> RafsDigest {
        self.inode.i_digest
    }

    open spec fn name_bytes(&self) -> Seq<u8> {
        self.name@
    }

    open spec fn device(&self) -> u32 {
        self.inode.i_rdev
    }

    open spec fn project(&self) -> u32 {
        self.inode.i_projid
    }

    fn is_dir(&self) -> (r: bool) {
        self.inode.is_dir()
    }

    fn is_reg(&self) -> (r: bool) {
        self.inode.is_reg()
    }

    fn is_symlink(&self) -> (r: bool) {
        self.inode.is_symlink()
    }

    fn is_hardlink(&self) -> (r: bool) {
        self.inode.is_hardlink()
    }

    fn is_empty_size(&self) -> (r: bool) {
        self.inode.i_size == 0
    }

    fn has_xattr(&self) -> (r: bool) {
        self.inode.has_xattr()
    }

    fn ino(&self) -> (v: u64) {
        self.inode.i_ino
    }

    fn parent(&self) -> (v: u64) {
        self.inode.i_parent
    }

    fn size(&self) -> (v: u64) {
        self.inode.i_size
    }

    fn flags(&self) -> (v: u64) {
        self.inode.i_flags
    }

    fn get_child_count(&self) -> (v: u32) {
        self.inode.i_child_count
    }

    fn get_digest(&self) -> (d: RafsDigest) {
        self.inode.i_digest
    }

    fn name(&self) -> (n: Vec<u8>) {
        let n = copy_range(self.name.as_slice(), 0, self.name.len());
        assert(n@ =~= self.name@);
        n
    }

    fn rdev(&self) -> (v: u32) {
        self.inode.i_rdev
    }

    fn projid(&self) -> (v: u32) {
        self.inode.i_projid
    }
}

/// Tells whether an inode, of whatever kind, holds data that reading ahead could fetch:
/// it is no directory and not empty.
pub fn holds_data<I: RafsInode>(inode: &I) -> (r: bool)
    ensures
        r == (!mode_is_dir(inode.mode_bits()) && inode.byte_size() != 0),
{
    !inode.is_dir() && !inode.is_empty_size()
}

} // verus!
