//! The chunk record: where one slice of a file's data lives inside a blob.

use vstd::prelude::*;
use vstd::bytes::*;
use crate::bytes::{
    get_le_u32, get_le_u64, le_u32_at, le_u64_at, put_le_u32, put_le_u64,
};
use crate::digest::RafsDigest;
use crate::error::RafsError;
use crate::reader::RafsIoReader;

verus! {

/// Size in bytes of a chunk record.
pub const RAFSV5_CHUNK_INFO_SIZE: usize = 80;

/// Flag bit: the chunk is stored compressed.
pub const RAFSV5_CHUNK_FLAG_COMPRESSED: u32 = 0x1;

/// Flag bit: the chunk is a hole and holds no data.
pub const RAFSV5_CHUNK_FLAG_HOLECHUNK: u32 = 0x2;

/// One chunk of a regular file.
#[derive(Clone, Copy, Debug, PartialEq, Eq, Structural)]
pub struct RafsV5ChunkInfo {
    /// Digest of the chunk's content.
    pub block_id: RafsDigest,
    /// Index into the blob table of the blob that holds the chunk.
    pub blob_index: u32,
    /// Flag bits, see the `RAFSV5_CHUNK_FLAG_` constants.
    pub flags: u32,
    /// Size of the chunk as stored in the blob.
    pub compress_size: u32,
    /// Size of the chunk once decompressed.
    pub decompress_size: u32,
    /// Offset of the stored chunk in the blob.
    pub compress_offset: u64,
    /// Offset of the decompressed chunk in the decompressed blob.
    pub decompress_offset: u64,
    /// Offset of the chunk in its file.
    pub file_offset: u64,
    /// Index of the chunk, counted per blob from zero.
    pub index: u32,
    /// Reserved.
    pub reserved: u32,
}

impl RafsV5ChunkInfo {
    /// The chunk record stored in the 80 bytes of `s` that start at `off`.
    pub open spec fn decoded(s: Seq<u8>, off: int) -> RafsV5ChunkInfo {
        RafsV5ChunkInfo {
            block_id: RafsDigest::decoded(s, off),
            blob_index: le_u32_at(s, off + 32),
            flags: le_u32_at(s, off + 36),
            compress_size: le_u32_at(s, off + 40),
            decompress_size: le_u32_at(s, off + 44),
            compress_offset: le_u64_at(s, off + 48),
            decompress_offset: le_u64_at(s, off + 56),
            file_offset: le_u64_at(s, off + 64),
            index: le_u32_at(s, off + 72),
            reserved: le_u32_at(s, off + 76),
        }
    }

    /// The 80 bytes that stand for the chunk record on disk.
    pub open spec fn encoded(self) -> Seq<u8> {
        self.block_id@ + spec_u32_to_le_bytes(self.blob_index) + spec_u32_to_le_bytes(self.flags)
            + spec_u32_to_le_bytes(self.compress_size) + spec_u32_to_le_bytes(
            self.decompress_size,
        ) + spec_u64_to_le_bytes(self.compress_offset) + spec_u64_to_le_bytes(
            self.decompress_offset,
        ) + spec_u64_to_le_bytes(self.file_offset) + spec_u32_to_le_bytes(self.index)
            + spec_u32_to_le_bytes(self.reserved)
    }

    /// The chunk records of a run of `count` records that starts at `off` in `s`.
    pub open spec fn decoded_run(s: Seq<u8>, off: int, count: nat) -> Seq<RafsV5ChunkInfo> {
        Seq::new(count, |k: int| Self::decoded(s, off + 80 * k))
    }

    /// A chunk record with every field zero.
    pub fn new() -> (c: Self)
        ensures
            c == (RafsV5ChunkInfo {
                block_id: RafsDigest { w0: 0, w1: 0, w2: 0, w3: 0 },
                blob_index: 0,
                flags: 0,
                compress_size: 0,
                decompress_size: 0,
                compress_offset: 0,
                decompress_offset: 0,
                file_offset: 0,
                index: 0,
                reserved: 0,
            }),
    {
        RafsV5ChunkInfo {
            block_id: RafsDigest::new(),
            blob_index: 0,
            flags: 0,
            compress_size: 0,
            decompress_size: 0,
            compress_offset: 0,
            decompress_offset: 0,
            file_offset: 0,
            index: 0,
            reserved: 0,
        }
    }

    /// Tells whether the chunk is stored compressed.
    pub fn is_compressed(&self) -> (r: bool)
        ensures
            r == (self.flags & RAFSV5_CHUNK_FLAG_COMPRESSED == RAFSV5_CHUNK_FLAG_COMPRESSED),
    {
        self.flags & RAFSV5_CHUNK_FLAG_COMPRESSED == RAFSV5_CHUNK_FLAG_COMPRESSED
    }

    /// Tells whether the chunk is a hole.
    pub fn is_hole(&self) -> (r: bool)
        ensures
            r == (self.flags & RAFSV5_CHUNK_FLAG_HOLECHUNK == RAFSV5_CHUNK_FLAG_HOLECHUNK),
    {
        self.flags & RAFSV5_CHUNK_FLAG_HOLECHUNK == RAFSV5_CHUNK_FLAG_HOLECHUNK
    }

    /// Decodes the chunk record at the reader's position and advances past it. Fails with
    /// `CorruptFormat`, changing nothing, where fewer than 80 bytes are left.
    pub fn load(&mut self, r: &mut RafsIoReader) -> (res: Result<(), RafsError>)
        ensures
            final(r).bytes() == old(r).bytes(),
            0 <= old(r).position() <= old(r).bytes().len(),
            res is Ok <==> old(r).position() + 80 <= old(r).bytes().len(),
            res is Ok ==> *final(self) == Self::decoded(old(r).bytes(), old(r).position())
                && final(r).position() == old(r).position() + 80,
            res is Err ==> res->Err_0 == RafsError::CorruptFormat && *final(self) == *old(self)
                && final(r).position() == old(r).position(),
    {
        let ghost s = r.bytes();
        let ghost off = r.position();
        let b = match r.read_exact(RAFSV5_CHUNK_INFO_SIZE) {
            Ok(b) => b,
            Err(e) => {
                return Err(e);
            },
        };
        let chunk = RafsV5ChunkInfo {
            block_id: RafsDigest::from_bytes(b, 0),
            blob_index: get_le_u32(b, 32),
            flags: get_le_u32(b, 36),
            compress_size: get_le_u32(b, 40),
            decompress_size: get_le_u32(b, 44),
            compress_offset: get_le_u64(b, 48),
            decompress_offset: get_le_u64(b, 56),
            file_offset: get_le_u64(b, 64),
            index: get_le_u32(b, 72),
            reserved: get_le_u32(b, 76),
        };
        proof {
            Self::lemma_decoded_window(s, off);
        }
        *self = chunk;
        Ok(())
    }

    /// Appends the 80 bytes of the chunk record to `buf`.
    pub fn store(&self, buf: &mut Vec<u8>)
        ensures
            final(buf)@ == old(buf)@ + self.encoded(),
    {
        let ghost before = buf@;
        self.block_id.store(buf);
        put_le_u32(buf, self.blob_index);
        put_le_u32(buf, self.flags);
        put_le_u32(buf, self.compress_size);
        put_le_u32(buf, self.decompress_size);
        put_le_u64(buf, self.compress_offset);
        put_le_u64(buf, self.decompress_offset);
        put_le_u64(buf, self.file_offset);
        put_le_u32(buf, self.index);
        put_le_u32(buf, self.reserved);
        assert(buf@ =~= before + self.encoded());
    }

    /// Decoding depends only on the 80 bytes of the record.
    pub proof fn lemma_decoded_window(s: Seq<u8>, off: int)
        requires
            0 <= off,
            off + 80 <= s.len(),
        ensures
            Self::decoded(s.subrange(off, off + 80), 0) == Self::decoded(s, off),
    {
        let w = s.subrange(off, off + 80);
        assert(w.subrange(0, 8) =~= s.subrange(off, off + 8));
        assert(w.subrange(8, 16) =~= s.subrange(off + 8, off + 16));
        assert(w.subrange(16, 24) =~= s.subrange(off + 16, off + 24));
        assert(w.subrange(24, 32) =~= s.subrange(off + 24, off + 32));
        assert(w.subrange(32, 36) =~= s.subrange(off + 32, off + 36));
        assert(w.subrange(36, 40) =~= s.subrange(off + 36, off + 40));
        assert(w.subrange(40, 44) =~= s.subrange(off + 40, off + 44));
        assert(w.subrange(44, 48) =~= s.subrange(off + 44, off + 48));
        assert(w.subrange(48, 56) =~= s.subrange(off + 48, off + 56));
        assert(w.subrange(56, 64) =~= s.subrange(off + 56, off + 64));
        assert(w.subrange(64, 72) =~= s.subrange(off + 64, off + 72));
        assert(w.subrange(72, 76) =~= s.subrange(off + 72, off + 76));
        assert(w.subrange(76, 80) =~= s.subrange(off + 76, off + 80));
    }

    /// A chunk record that is encoded and then decoded is unchanged in every field.
    pub proof fn lemma_roundtrip(self)
        ensures
            self.encoded().len() == 80,
            Self::decoded(self.encoded(), 0) == self,
    {
        lemma_auto_spec_u32_to_from_le_bytes();
        lemma_auto_spec_u64_to_from_le_bytes();
        let e = self.encoded();
        assert(e.subrange(0, 8) =~= spec_u64_to_le_bytes(self.block_id.w0));
        assert(e.subrange(8, 16) =~= spec_u64_to_le_bytes(self.block_id.w1));
        assert(e.subrange(16, 24) =~= spec_u64_to_le_bytes(self.block_id.w2));
        assert(e.subrange(24, 32) =~= spec_u64_to_le_bytes(self.block_id.w3));
        assert(e.subrange(32, 36) =~= spec_u32_to_le_bytes(self.blob_index));
        assert(e.subrange(36, 40) =~= spec_u32_to_le_bytes(self.flags));
        assert(e.subrange(40, 44) =~= spec_u32_to_le_bytes(self.compress_size));
        assert(e.subrange(44, 48) =~= spec_u32_to_le_bytes(self.decompress_size));
        assert(e.subrange(48, 56) =~= spec_u64_to_le_bytes(self.compress_offset));
        assert(e.subrange(56, 64) =~= spec_u64_to_le_bytes(self.decompress_offset));
        assert(e.subrange(64, 72) =~= spec_u64_to_le_bytes(self.file_offset));
        assert(e.subrange(72, 76) =~= spec_u32_to_le_bytes(self.index));
        assert(e.subrange(76, 80) =~= spec_u32_to_le_bytes(self.reserved));
    }
}

} // verus!
