//! Turning a byte range of a file into the pieces of chunks that hold it.

use vstd::prelude::*;
use std::sync::Arc;
use crate::chunk::RafsV5ChunkInfo;
use crate::error::RafsError;
use crate::mock_inode::{MockChunkInfo, MockInode, RafsBio, RafsBioDesc, CHUNK_SIZE};
use crate::rafs_inode::RafsInode;

verus! {

/// The chunks that a sequence of shared chunks points to.
pub open spec fn chunk_values(data: Seq<Arc<MockChunkInfo>>) -> Seq<RafsV5ChunkInfo> {
    Seq::new(data.len(), |i: int| *data[i])
}

/// The offset in the file at which a chunk ends.
pub open spec fn chunk_end(c: RafsV5ChunkInfo) -> int {
    c.file_offset + c.decompress_size
}

/// The pieces that hold the bytes of a file from `pos` to `end`, behind `acc`, taken
/// from the chunks from position `k` on. A chunk that ends at or before `pos` holds
/// nothing of the range and is passed over. The next chunk must hold the byte at `pos`:
/// a gap in the chunks, or their end before `end`, is `CorruptFormat`. The piece of a
/// chunk starts at `pos` and ends where the chunk or the range ends.
pub open spec fn segments_from(
    chunks: Seq<RafsV5ChunkInfo>,
    k: int,
    pos: int,
    end: int,
    blksize: u32,
    acc: Seq<RafsBio>,
) -> Result<Seq<RafsBio>, RafsError>
    decreases chunks.len() - k,
{
    if pos >= end {
        Ok(acc)
    } else if k < 0 || k >= chunks.len() {
        Err(RafsError::CorruptFormat)
    } else {
        let c = chunks[k];
        if chunk_end(c) <= pos {
            segments_from(chunks, k + 1, pos, end, blksize, acc)
        } else if c.file_offset > pos {
            Err(RafsError::CorruptFormat)
        } else {
            let stop = if chunk_end(c) < end {
                chunk_end(c)
            } else {
                end
            };
            let bio = RafsBio {
                chunkinfo: c,
                offset: (pos - c.file_offset) as u32,
                size: (stop - pos) as u32,
                blksize,
            };
            segments_from(chunks, k + 1, stop, end, blksize, acc.push(bio))
        }
    }
}

/// Whether the pieces `segs` hold the bytes of a file from `from` to `to` one after the
/// other: the first starts at `from`, each starts where the one before it ends, the last
/// ends at `to`, and each is a part of its chunk that is not empty. Pieces that tile a
/// range leave no gap and do not overlap.
pub open spec fn tiles(segs: Seq<RafsBio>, from: int, to: int) -> bool
    decreases segs.len(),
{
    if segs.len() == 0 {
        from == to
    } else {
        let last = segs.last();
        &&& last.inside_chunk()
        &&& last.file_end() == to
        &&& from <= last.file_start()
        &&& tiles(segs.drop_last(), from, last.file_start())
    }
}

/// Whether the chunks hold a file of `size` bytes from its first byte on without a gap:
/// the first chunk starts at offset zero, each starts where the one before it ends, and
/// the last ends at or behind `size`.
pub open spec fn chunks_cover(chunks: Seq<RafsV5ChunkInfo>, size: int) -> bool {
    if chunks.len() == 0 {
        size == 0
    } else {
        &&& chunks[0].file_offset == 0
        &&& forall|i: int|
            0 <= i < chunks.len() - 1 ==> chunk_end(#[trigger] chunks[i]) == chunks[i
                + 1].file_offset
        &&& size <= chunk_end(chunks.last())
    }
}

/// Pieces that were taken for a range tile it, whatever the chunks are.
pub proof fn lemma_segments_tile(
    chunks: Seq<RafsV5ChunkInfo>,
    k: int,
    pos: int,
    end: int,
    blksize: u32,
    acc: Seq<RafsBio>,
    from: int,
)
    requires
        0 <= k,
        pos <= end,
        tiles(acc, from, pos),
        segments_from(chunks, k, pos, end, blksize, acc) is Ok,
    ensures
        tiles(segments_from(chunks, k, pos, end, blksize, acc)->Ok_0, from, end),
    decreases chunks.len() - k,
{
    if pos < end && k < chunks.len() {
        let c = chunks[k];
        if chunk_end(c) <= pos {
            lemma_segments_tile(chunks, k + 1, pos, end, blksize, acc, from);
        } else if c.file_offset <= pos {
            let stop = if chunk_end(c) < end {
                chunk_end(c)
            } else {
                end
            };
            let bio = RafsBio {
                chunkinfo: c,
                offset: (pos - c.file_offset) as u32,
                size: (stop - pos) as u32,
                blksize,
            };
            let next = acc.push(bio);
            assert(next.drop_last() =~= acc);
            assert(next.last() == bio);
            assert(tiles(next, from, stop));
            lemma_segments_tile(chunks, k + 1, stop, end, blksize, next, from);
        }
    }
}

/// Every range of a file whose chunks cover it can be taken to pieces.
pub proof fn lemma_covered_range_has_segments(
    chunks: Seq<RafsV5ChunkInfo>,
    size: int,
    k: int,
    pos: int,
    end: int,
    blksize: u32,
    acc: Seq<RafsBio>,
)
    requires
        chunks_cover(chunks, size),
        0 <= k <= chunks.len(),
        end <= size,
        pos >= end || (k < chunks.len() && chunks[k].file_offset <= pos),
    ensures
        segments_from(chunks, k, pos, end, blksize, acc) is Ok,
    decreases chunks.len() - k,
{
    if pos < end {
        let c = chunks[k];
        if chunk_end(c) <= pos {
            lemma_covered_range_has_segments(chunks, size, k + 1, pos, end, blksize, acc);
        } else {
            let stop = if chunk_end(c) < end {
                chunk_end(c)
            } else {
                end
            };
            let bio = RafsBio {
                chunkinfo: c,
                offset: (pos - c.file_offset) as u32,
                size: (stop - pos) as u32,
                blksize,
            };
            lemma_covered_range_has_segments(
                chunks,
                size,
                k + 1,
                stop,
                end,
                blksize,
                acc.push(bio),
            );
        }
    }
}

/// Takes the bytes of a file from `offset` to `end` to pieces, see `segments_from`.
pub fn alloc_segments(chunks: &Vec<RafsV5ChunkInfo>, offset: u64, end: u64, blksize: u32) -> (res:
    Result<Vec<RafsBio>, RafsError>)
    ensures
        match segments_from(chunks@, 0, offset as int, end as int, blksize, Seq::empty()) {
            Err(e) => res == Err::<Vec<RafsBio>, RafsError>(e),
            Ok(segs) => res is Ok && res->Ok_0@ == segs,
        },
{
    let ghost goal = segments_from(chunks@, 0, offset as int, end as int, blksize, Seq::empty());
    let mut bi_vec: Vec<RafsBio> = Vec::new();
    let mut pos: u64 = offset;
    let n = chunks.len();
    let mut k: usize = 0;
    while pos < end
        invariant
            k <= n,
            n == chunks@.len(),
            goal == segments_from(chunks@, 0, offset as int, end as int, blksize, Seq::empty()),
            goal == segments_from(chunks@, k as int, pos as int, end as int, blksize, bi_vec@),
        decreases n - k,
    {
        if k >= n {
            return Err(RafsError::CorruptFormat);
        }
        let c = chunks[k];
        let c_end: u128 = c.file_offset as u128 + c.decompress_size as u128;
        if c_end <= pos as u128 {
            k = k + 1;
            continue;
        }
        if c.file_offset > pos {
            return Err(RafsError::CorruptFormat);
        }
        let stop: u64 = if c_end < end as u128 {
            c_end as u64
        } else {
            end
        };
        bi_vec.push(
            RafsBio {
                chunkinfo: c,
                offset: (pos - c.file_offset) as u32,
                size: (stop - pos) as u32,
                blksize,
            },
        );
        pos = stop;
        k = k + 1;
    }
    Ok(bi_vec)
}

impl MockInode {
    /// The pieces that a read of `size` bytes at `offset` needs: `NotRegularFile` for
    /// anything but a regular file, `OutOfRange` for a range that passes the end of the
    /// file, `CorruptFormat` where the chunks do not hold the range without a gap.
    pub open spec fn bio_segments(&self, offset: u64, size: usize) -> Result<
        Seq<RafsBio>,
        RafsError,
    > {
        if !self.spec_is_reg() {
            Err(RafsError::NotRegularFile)
        } else if offset + size > self.i_size {
            Err(RafsError::OutOfRange)
        } else {
            segments_from(
                chunk_values(self.i_data@),
                0,
                offset as int,
                offset + size,
                CHUNK_SIZE,
                Seq::empty(),
            )
        }
    }

    /// Cuts a read of `size` bytes at `offset` into pieces of chunks, in file
    /// order. The first and the last chunk are cut to the range. No data is read.
    pub fn alloc_bio_desc(&self, offset: u64, size: usize, user_io: bool) -> (res: Result<
        RafsBioDesc,
        RafsError,
    >)
        ensures
            match self.bio_segments(offset, size) {
                Err(e) => res == Err::<RafsBioDesc, RafsError>(e),
                Ok(segs) => {
                    &&& res is Ok
                    &&& res->Ok_0.bi_vec@ == segs
                    &&& res->Ok_0.bi_size == size
                    &&& res->Ok_0.bi_user_io == user_io
                },
            },
    {
        if !self.is_reg() {
            return Err(RafsError::NotRegularFile);
        }
        if size as u64 > self.i_size || offset > self.i_size - size as u64 {
            return Err(RafsError::OutOfRange);
        }
        let n = self.i_data.len();
        let mut chunks: Vec<RafsV5ChunkInfo> = Vec::new();
        let mut k: usize = 0;
        while k < n
            invariant
                k <= n,
                n == self.i_data@.len(),
                chunks@ == chunk_values(self.i_data@).subrange(0, k as int),
            decreases n - k,
        {
            let c: &MockChunkInfo = &self.i_data[k];
            chunks.push(*c);
            k = k + 1;
            assert(chunks@ =~= chunk_values(self.i_data@).subrange(0, k as int));
        }
        assert(chunks@ =~= chunk_values(self.i_data@));
        match alloc_segments(&chunks, offset, offset + size as u64, self.get_blocksize()) {
            Ok(bi_vec) => Ok(RafsBioDesc { bi_user_io: user_io, bi_size: size, bi_vec }),
            Err(e) => Err(e),
        }
    }

    /// The pieces of a read tile its range: the first starts where the read starts, each
    /// starts where the one before it ends, the last ends where the read ends, and none
    /// is empty. So the pieces of a read of the whole file hold every byte of it exactly
    /// once.
    pub proof fn lemma_read_is_tiled(&self, offset: u64, size: usize)
        requires
            self.bio_segments(offset, size) is Ok,
        ensures
            tiles(self.bio_segments(offset, size)->Ok_0, offset as int, offset + size),
    {
        lemma_segments_tile(
            chunk_values(self.i_data@),
            0,
            offset as int,
            offset + size,
            CHUNK_SIZE,
            Seq::empty(),
            offset as int,
        );
    }

    /// Every read inside a regular file whose chunks cover it succeeds.
    pub proof fn lemma_covered_file_reads(&self, offset: u64, size: usize)
        requires
            self.spec_is_reg(),
            chunks_cover(chunk_values(self.i_data@), self.i_size as int),
            offset + size <= self.i_size,
        ensures
            self.bio_segments(offset, size) is Ok,
    {
        let chunks = chunk_values(self.i_data@);
        lemma_covered_range_has_segments(
            chunks,
            self.i_size as int,
            0,
            offset as int,
            offset + size,
            CHUNK_SIZE,
            Seq::empty(),
        );
    }
}

} // verus!
