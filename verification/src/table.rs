//! The tables of the bootstrap: inode offsets, blobs, extended blob data, prefetch hints,
//! and the header of an extended-attribute block.

use vstd::prelude::*;
use vstd::bytes::*;
use crate::bytes::{
    align_to_rafs, align_up, get_le_u32, get_le_u64, le_u32_at, le_u64_at, put_le_u32,
    put_le_u64, put_zeros, zeros,
};
use crate::error::RafsError;
use crate::reader::RafsIoReader;

verus! {

/// The `n` 32-bit little-endian integers stored in `s` from `off` on.
pub open spec fn u32_array_at(s: Seq<u8>, off: int, n: nat) -> Seq<u32> {
    Seq::new(n, |k: int| le_u32_at(s, off + 4 * k))
}

/// The bytes that stand for an array of 32-bit integers on disk.
pub open spec fn u32_array_encoded(a: Seq<u32>) -> Seq<u8>
    decreases a.len(),
{
    if a.len() == 0 {
        Seq::empty()
    } else {
        u32_array_encoded(a.drop_last()) + spec_u32_to_le_bytes(a.last())
    }
}

/// Reads `count` 32-bit integers at the reader's position and advances past them. Fails
/// with `CorruptFormat`, moving nothing, where the stream ends before the array does.
pub fn load_u32_array(r: &mut RafsIoReader, count: usize) -> (res: Result<Vec<u32>, RafsError>)
    ensures
        final(r).bytes() == old(r).bytes(),
        0 <= old(r).position() <= old(r).bytes().len(),
        res is Ok <==> old(r).position() + 4 * count <= old(r).bytes().len(),
        res is Ok ==> res->Ok_0@ == u32_array_at(old(r).bytes(), old(r).position(), count as nat)
            && final(r).position() == old(r).position() + 4 * count,
        res is Err ==> res->Err_0 == RafsError::CorruptFormat && final(r).position() == old(
            r,
        ).position(),
{
    let start = r.offset();
    let total = r.len();
    if count > (total - start as usize) / 4 {
        return Err(RafsError::CorruptFormat);
    }
    let ghost s = r.bytes();
    let b = match r.read_exact(count * 4) {
        Ok(b) => b,
        Err(e) => {
            return Err(e);
        },
    };
    let width = b.len();
    let mut out: Vec<u32> = Vec::new();
    let mut k: usize = 0;
    while k < count
        invariant
            k <= count,
            b@.len() == 4 * count == width,
            0 <= start,
            start + 4 * count <= s.len(),
            b@ == s.subrange(start as int, start + 4 * count),
            out@ == u32_array_at(s, start as int, k as nat),
        decreases count - k,
    {
        let v = get_le_u32(b, 4 * k);
        assert(b@.subrange(4 * k, 4 * k + 4) =~= s.subrange(start + 4 * k, start + 4 * k + 4));
        out.push(v);
        k = k + 1;
        assert(out@ =~= u32_array_at(s, start as int, k as nat));
    }
    Ok(out)
}

/// Appends the integers of `a` to `buf`, four little-endian bytes each.
pub fn store_u32_array(a: &Vec<u32>, buf: &mut Vec<u8>)
    ensures
        final(buf)@ == old(buf)@ + u32_array_encoded(a@),
{
    let ghost before = buf@;
    let mut k: usize = 0;
    assert(a@.subrange(0, 0) =~= Seq::<u32>::empty());
    while k < a.len()
        invariant
            k <= a@.len(),
            buf@ == before + u32_array_encoded(a@.subrange(0, k as int)),
        decreases a@.len() - k,
    {
        put_le_u32(buf, a[k]);
        proof {
            let next = a@.subrange(0, k + 1);
            assert(next.drop_last() =~= a@.subrange(0, k as int));
            assert(next.last() == a@[k as int]);
            assert(buf@ =~= before + u32_array_encoded(next));
        }
        k = k + 1;
    }
    assert(a@.subrange(0, k as int) =~= a@);
}

/// The inode table: for every inode index the offset of its record, in units of eight
/// bytes. The root has index zero; the inode with number `n` has index `n - 1`.
#[derive(Clone, Debug, PartialEq, Eq)]
pub struct RafsV5InodeTable {
    pub data: Vec<u32>,
}

impl View for RafsV5InodeTable {
    type V = Seq<u32>;

    open spec fn view(&self) -> Seq<u32> {
        self.data@
    }
}

/// The byte offset of the record of the inode with index `index`, for a table that holds
/// it.
pub open spec fn table_offset(table: Seq<u32>, index: int) -> int {
    8 * table[index]
}

impl RafsV5InodeTable {
    /// A table of `entries` entries, all zero.
    pub fn new(entries: usize) -> (t: Self)
        ensures
            t@.len() == entries,
            forall|k: int| 0 <= k < entries ==> t@[k] == 0,
    {
        RafsV5InodeTable { data: vec![0u32; entries] }
    }

    /// The number of entries.
    pub fn len(&self) -> (n: usize)
        ensures
            n == self@.len(),
    {
        self.data.len()
    }

    /// Fills the table from the reader's position on, keeping its number of entries, and
    /// advances past it. Fails with `CorruptFormat`, changing nothing, where the stream is
    /// too short.
    pub fn load(&mut self, r: &mut RafsIoReader) -> (res: Result<(), RafsError>)
        ensures
            final(r).bytes() == old(r).bytes(),
            0 <= old(r).position() <= old(r).bytes().len(),
            res is Ok <==> old(r).position() + 4 * old(self)@.len() <= old(r).bytes().len(),
            res is Ok ==> final(self)@ == u32_array_at(
                old(r).bytes(),
                old(r).position(),
                old(self)@.len(),
            ) && final(r).position() == old(r).position() + 4 * old(self)@.len(),
            res is Err ==> res->Err_0 == RafsError::CorruptFormat && final(self)@ == old(self)@
                && final(r).position() == old(r).position(),
    {
        match load_u32_array(r, self.data.len()) {
            Ok(v) => {
                self.data = v;
                Ok(())
            },
            Err(e) => Err(e),
        }
    }

    /// The byte offset of the record of the inode with index `index`. Fails with
    /// `OutOfRange` exactly where the table has no such entry.
    pub fn offset_of(&self, index: usize) -> (res: Result<u64, RafsError>)
        ensures
            res is Ok <==> index < self@.len(),
            res is Ok ==> res->Ok_0 == table_offset(self@, index as int),
            res is Err ==> res->Err_0 == RafsError::OutOfRange,
    {
        if index >= self.data.len() {
            return Err(RafsError::OutOfRange);
        }
        Ok(self.data[index] as u64 * 8)
    }

    /// The byte offset of the record of the inode with number `ino`. Inode numbers start
    /// at one. Fails with `OutOfRange` exactly where no entry stands for `ino`.
    pub fn get(&self, ino: u64) -> (res: Result<u64, RafsError>)
        ensures
            res is Ok <==> 1 <= ino <= self@.len(),
            res is Ok ==> res->Ok_0 == table_offset(self@, ino - 1),
            res is Err ==> res->Err_0 == RafsError::OutOfRange,
    {
        if ino == 0 || ino > self.data.len() as u64 {
            return Err(RafsError::OutOfRange);
        }
        Ok(self.data[(ino - 1) as usize] as u64 * 8)
    }

    /// Records that the inode with number `ino` is stored at byte offset `offset`. Fails
    /// with `OutOfRange`, changing nothing, where no entry stands for `ino`, and with
    /// `CorruptFormat` where the offset is not a multiple of eight or too large to record.
    pub fn set(&mut self, ino: u64, offset: u64) -> (res: Result<(), RafsError>)
        ensures
            res is Ok <==> 1 <= ino <= old(self)@.len() && offset % 8 == 0 && offset / 8
                <= u32::MAX,
            res is Ok ==> final(self)@ == old(self)@.update(ino - 1, (offset / 8) as u32),
            res is Err ==> final(self)@ == old(self)@ && res->Err_0 == (if 1 <= ino <= old(
                self,
            )@.len() {
                RafsError::CorruptFormat
            } else {
                RafsError::OutOfRange
            }),
    {
        if ino == 0 || ino > self.data.len() as u64 {
            return Err(RafsError::OutOfRange);
        }
        if offset % 8 != 0 || offset / 8 > u32::MAX as u64 {
            return Err(RafsError::CorruptFormat);
        }
        self.data[(ino - 1) as usize] = (offset / 8) as u32;
        Ok(())
    }

    /// Appends the table to `buf`.
    pub fn store(&self, buf: &mut Vec<u8>)
        ensures
            final(buf)@ == old(buf)@ + u32_array_encoded(self@),
    {
        store_u32_array(&self.data, buf);
    }
}

/// The prefetch table: inode numbers in the order in which they should be read ahead.
#[derive(Clone, Debug, PartialEq, Eq)]
pub struct RafsV5PrefetchTable {
    pub inodes: Vec<u32>,
}

impl View for RafsV5PrefetchTable {
    type V = Seq<u32>;

    open spec fn view(&self) -> Seq<u32> {
        self.inodes@
    }
}

impl RafsV5PrefetchTable {
    /// An empty table.
    pub fn new() -> (t: Self)
        ensures
            t@.len() == 0,
    {
        RafsV5PrefetchTable { inodes: Vec::new() }
    }

    /// The number of entries.
    pub fn len(&self) -> (n: usize)
        ensures
            n == self@.len(),
    {
        self.inodes.len()
    }

    /// Loads `entries` inode numbers stored at `offset`, in their stored order. An empty
    /// table is valid and reads nothing. Fails with `CorruptFormat`, changing nothing,
    /// where a table with entries does not lie inside the stream.
    pub fn load_prefetch_table_from(
        &mut self,
        r: &mut RafsIoReader,
        offset: u64,
        entries: usize,
    ) -> (res: Result<usize, RafsError>)
        ensures
            final(r).bytes() == old(r).bytes(),
            res is Ok <==> entries == 0 || offset + 4 * entries <= old(r).bytes().len(),
            res is Ok ==> res->Ok_0 == entries && final(self)@ == u32_array_at(
                old(r).bytes(),
                offset as int,
                entries as nat,
            ),
            res is Err ==> res->Err_0 == RafsError::CorruptFormat && final(self)@ == old(self)@,
    {
        if entries == 0 {
            self.inodes = Vec::new();
            assert(self@ =~= u32_array_at(r.bytes(), offset as int, 0));
            return Ok(0);
        }
        match r.seek_to_offset(offset) {
            Ok(()) => {},
            Err(e) => {
                return Err(e);
            },
        }
        match load_u32_array(r, entries) {
            Ok(v) => {
                self.inodes = v;
                Ok(entries)
            },
            Err(e) => Err(e),
        }
    }

    /// Appends the table to `buf`.
    pub fn store(&self, buf: &mut Vec<u8>)
        ensures
            final(buf)@ == old(buf)@ + u32_array_encoded(self@),
    {
        store_u32_array(&self.inodes, buf);
    }
}

/// One entry of the extended blob table.
#[derive(Clone, Copy, Debug, PartialEq, Eq, Structural)]
pub struct RafsV5ExtBlobEntry {
    /// Number of chunks in the blob.
    pub chunk_count: u32,
    /// Size of the blob once decompressed, as the cache holds it.
    pub blob_cache_size: u64,
    /// Size of the blob as stored.
    pub compressed_blob_size: u64,
}

impl RafsV5ExtBlobEntry {
    /// The entry stored in the 64 bytes of `s` that start at `off`.
    pub open spec fn decoded(s: Seq<u8>, off: int) -> RafsV5ExtBlobEntry {
        RafsV5ExtBlobEntry {
            chunk_count: le_u32_at(s, off),
            blob_cache_size: le_u64_at(s, off + 8),
            compressed_blob_size: le_u64_at(s, off + 16),
        }
    }

    /// The 64 bytes that stand for the entry on disk; what is reserved is zero.
    pub open spec fn encoded(self) -> Seq<u8> {
        spec_u32_to_le_bytes(self.chunk_count) + zeros(4) + spec_u64_to_le_bytes(
            self.blob_cache_size,
        ) + spec_u64_to_le_bytes(self.compressed_blob_size) + zeros(40)
    }

    /// Appends the 64 bytes of the entry to `buf`.
    pub fn store(&self, buf: &mut Vec<u8>)
        ensures
            final(buf)@ == old(buf)@ + self.encoded(),
    {
        let ghost before = buf@;
        put_le_u32(buf, self.chunk_count);
        put_zeros(buf, 4);
        put_le_u64(buf, self.blob_cache_size);
        put_le_u64(buf, self.compressed_blob_size);
        put_zeros(buf, 40);
        assert(buf@ =~= before + self.encoded());
    }

    /// An entry that is encoded and then decoded is unchanged in every field.
    pub proof fn lemma_roundtrip(self)
        ensures
            self.encoded().len() == 64,
            Self::decoded(self.encoded(), 0) == self,
    {
        lemma_auto_spec_u32_to_from_le_bytes();
        lemma_auto_spec_u64_to_from_le_bytes();
        let e = self.encoded();
        assert(e.subrange(0, 4) =~= spec_u32_to_le_bytes(self.chunk_count));
        assert(e.subrange(8, 16) =~= spec_u64_to_le_bytes(self.blob_cache_size));
        assert(e.subrange(16, 24) =~= spec_u64_to_le_bytes(self.compressed_blob_size));
    }
}

/// The extended blob table, whose entries stand one for one beside those of the blob
/// table. An image without it is a legacy image, not a broken one.
#[derive(Clone, Debug, PartialEq, Eq)]
pub struct RafsV5ExtBlobTable {
    pub entries: Vec<RafsV5ExtBlobEntry>,
}

impl View for RafsV5ExtBlobTable {
    type V = Seq<RafsV5ExtBlobEntry>;

    open spec fn view(&self) -> Seq<RafsV5ExtBlobEntry> {
        self.entries@
    }
}

impl RafsV5ExtBlobTable {
    /// The `n` entries stored in `s` from `off` on.
    pub open spec fn decoded(s: Seq<u8>, off: int, n: nat) -> Seq<RafsV5ExtBlobEntry> {
        Seq::new(n, |k: int| RafsV5ExtBlobEntry::decoded(s, off + 64 * k))
    }

    /// An empty table.
    pub fn new() -> (t: Self)
        ensures
            t@.len() == 0,
    {
        RafsV5ExtBlobTable { entries: Vec::new() }
    }

    /// Loads `count` entries from the reader's position on and advances past them. Fails
    /// with `CorruptFormat`, changing nothing, where the stream ends before the table
    /// does.
    pub fn load(&mut self, r: &mut RafsIoReader, count: usize) -> (res: Result<(), RafsError>)
        ensures
            final(r).bytes() == old(r).bytes(),
            0 <= old(r).position() <= old(r).bytes().len(),
            res is Ok <==> old(r).position() + 64 * count <= old(r).bytes().len(),
            res is Ok ==> final(self)@ == Self::decoded(
                old(r).bytes(),
                old(r).position(),
                count as nat,
            ) && final(r).position() == old(r).position() + 64 * count,
            res is Err ==> res->Err_0 == RafsError::CorruptFormat && final(self)@ == old(self)@
                && final(r).position() == old(r).position(),
    {
        let start = r.offset();
        let total = r.len();
        if count > (total - start as usize) / 64 {
            return Err(RafsError::CorruptFormat);
        }
        let ghost s = r.bytes();
        let b = match r.read_exact(count * 64) {
            Ok(b) => b,
            Err(e) => {
                return Err(e);
            },
        };
        let width = b.len();
        let mut out: Vec<RafsV5ExtBlobEntry> = Vec::new();
        let mut k: usize = 0;
        while k < count
            invariant
                k <= count,
                b@.len() == 64 * count == width,
                0 <= start,
                start + 64 * count <= s.len(),
                b@ == s.subrange(start as int, start + 64 * count),
                out@ == Self::decoded(s, start as int, k as nat),
            decreases count - k,
        {
            let base = 64 * k;
            let e = RafsV5ExtBlobEntry {
                chunk_count: get_le_u32(b, base),
                blob_cache_size: get_le_u64(b, base + 8),
                compressed_blob_size: get_le_u64(b, base + 16),
            };
            proof {
                let o = start + 64 * k;
                assert(b@.subrange(base as int, base + 4) =~= s.subrange(o, o + 4));
                assert(b@.subrange(base + 8, base + 16) =~= s.subrange(o + 8, o + 16));
                assert(b@.subrange(base + 16, base + 24) =~= s.subrange(o + 16, o + 24));
            }
            out.push(e);
            k = k + 1;
            assert(out@ =~= Self::decoded(s, start as int, k as nat));
        }
        self.entries = out;
        Ok(())
    }

    /// The entry at `index`. Fails with `NotFound` exactly where the table has none.
    pub fn get(&self, index: u32) -> (res: Result<RafsV5ExtBlobEntry, RafsError>)
        ensures
            res is Ok <==> index < self@.len(),
            res is Ok ==> res->Ok_0 == self@[index as int],
            res is Err ==> res->Err_0 == RafsError::NotFound,
    {
        if index as usize >= self.entries.len() {
            return Err(RafsError::NotFound);
        }
        Ok(self.entries[index as usize])
    }
}

/// The header of an extended-attribute block: the size of the pairs that follow it.
#[derive(Clone, Copy, Debug, PartialEq, Eq, Structural)]
pub struct RafsV5XAttrsTable {
    pub size: u64,
}

impl RafsV5XAttrsTable {
    /// Size in bytes of the header.
    pub open spec fn header_size() -> int {
        8
    }

    /// The header stored in the 8 bytes of `s` that start at `off`.
    pub open spec fn decoded(s: Seq<u8>, off: int) -> RafsV5XAttrsTable {
        RafsV5XAttrsTable { size: le_u64_at(s, off) }
    }

    /// Size in bytes of the pairs with their padding.
    pub open spec fn spec_aligned_size(self) -> int {
        align_up(self.size as int)
    }

    /// A header that announces no pairs.
    pub fn new() -> (t: Self)
        ensures
            t.size == 0,
    {
        RafsV5XAttrsTable { size: 0 }
    }

    /// Decodes the header at the reader's position and advances past it. Fails with
    /// `CorruptFormat`, changing nothing, where fewer than 8 bytes are left.
    pub fn load(&mut self, r: &mut RafsIoReader) -> (res: Result<(), RafsError>)
        ensures
            final(r).bytes() == old(r).bytes(),
            0 <= old(r).position() <= old(r).bytes().len(),
            res is Ok <==> old(r).position() + 8 <= old(r).bytes().len(),
            res is Ok ==> *final(self) == Self::decoded(old(r).bytes(), old(r).position())
                && final(r).position() == old(r).position() + 8,
            res is Err ==> res->Err_0 == RafsError::CorruptFormat && *final(self) == *old(self)
                && final(r).position() == old(r).position(),
    {
        match r.read_u64() {
            Ok(v) => {
                self.size = v;
                Ok(())
            },
            Err(e) => Err(e),
        }
    }

    /// Size in bytes of the pairs with their padding, or `None` where that size cannot be
    /// held in 64 bits.
    pub fn aligned_size(&self) -> (n: Option<u64>)
        ensures
            n is Some <==> self.spec_aligned_size() <= u64::MAX,
            n is Some ==> n->0 == self.spec_aligned_size(),
    {
        if self.size > u64::MAX - 7 {
            None
        } else {
            Some(align_to_rafs(self.size))
        }
    }
}

} // verus!
