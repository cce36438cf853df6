//! A seekable cursor over the bytes of a bootstrap.
//!
//! The bootstrap itself is immutable and may be shared freely. Every decode takes a cursor
//! of its own, so a seek and the read that follows it are never interleaved with another
//! decode.

use vstd::prelude::*;
use vstd::slice::*;
use crate::bytes::{get_le_u16, get_le_u32, get_le_u64, le_u16_at, le_u32_at, le_u64_at};
use crate::error::RafsError;

verus! {

/// A read position within a borrowed byte stream.
pub struct RafsIoReader<'a> {
    data: &'a [u8],
    pos: usize,
}

impl<'a> RafsIoReader<'a> {
    /// The whole byte stream the reader was made over.
    pub closed spec fn bytes(&self) -> Seq<u8> {
        self.data@
    }

    /// The offset of the next byte to be read.
    pub closed spec fn position(&self) -> int {
        self.pos as int
    }

    /// The cursor never leaves the stream.
    #[verifier::type_invariant]
    spec fn in_bounds(&self) -> bool {
        self.pos <= self.data@.len()
    }

    /// A reader positioned at the start of `data`.
    pub fn new(data: &'a [u8]) -> (r: Self)
        ensures
            r.bytes() == data@,
            r.position() == 0,
    {
        RafsIoReader { data, pos: 0 }
    }

    /// The current read position.
    pub fn offset(&self) -> (p: u64)
        ensures
            p == self.position(),
            0 <= self.position() <= self.bytes().len(),
    {
        proof {
            use_type_invariant(self);
        }
        self.pos as u64
    }

    /// The length of the stream.
    pub fn len(&self) -> (n: usize)
        ensures
            n == self.bytes().len(),
    {
        self.data.len()
    }

    /// Moves the cursor to `offset`. An offset past the end of the stream is refused and
    /// leaves the cursor where it was.
    pub fn seek_to_offset(&mut self, offset: u64) -> (r: Result<(), RafsError>)
        ensures
            final(self).bytes() == old(self).bytes(),
            0 <= old(self).position() <= old(self).bytes().len(),
            0 <= final(self).position() <= final(self).bytes().len(),
            r is Ok <==> offset <= old(self).bytes().len(),
            r is Ok ==> final(self).position() == offset,
            r is Err ==> r == Err::<(), RafsError>(RafsError::CorruptFormat) && final(self).position()
                == old(self).position(),
    {
        proof {
            use_type_invariant(&*self);
        }
        if offset > self.data.len() as u64 {
            return Err(RafsError::CorruptFormat);
        }
        self.pos = offset as usize;
        Ok(())
    }

    /// Reads exactly `n` bytes and advances past them. A read past the end of the stream
    /// fails and leaves the cursor where it was.
    pub fn read_exact(&mut self, n: usize) -> (r: Result<&'a [u8], RafsError>)
        ensures
            final(self).bytes() == old(self).bytes(),
            0 <= old(self).position() <= old(self).bytes().len(),
            0 <= final(self).position() <= final(self).bytes().len(),
            r is Ok <==> old(self).position() + n <= old(self).bytes().len(),
            r is Ok ==> r->Ok_0@ == old(self).bytes().subrange(
                old(self).position(),
                old(self).position() + n,
            ) && final(self).position() == old(self).position() + n,
            r is Err ==> r->Err_0 == RafsError::CorruptFormat && final(self).position() == old(
                self,
            ).position(),
    {
        proof {
            use_type_invariant(&*self);
        }
        if n > self.data.len() - self.pos {
            return Err(RafsError::CorruptFormat);
        }
        let out = slice_subrange(self.data, self.pos, self.pos + n);
        self.pos = self.pos + n;
        Ok(out)
    }

    /// Reads a 16-bit little-endian integer.
    pub fn read_u16(&mut self) -> (r: Result<u16, RafsError>)
        ensures
            final(self).bytes() == old(self).bytes(),
            0 <= old(self).position() <= old(self).bytes().len(),
            0 <= final(self).position() <= final(self).bytes().len(),
            r is Ok <==> old(self).position() + 2 <= old(self).bytes().len(),
            r is Ok ==> r->Ok_0 == le_u16_at(old(self).bytes(), old(self).position())
                && final(self).position() == old(self).position() + 2,
            r is Err ==> r->Err_0 == RafsError::CorruptFormat && final(self).position() == old(
                self,
            ).position(),
    {
        proof {
            use_type_invariant(&*self);
        }
        if 2 > self.data.len() - self.pos {
            return Err(RafsError::CorruptFormat);
        }
        let v = get_le_u16(self.data, self.pos);
        self.pos = self.pos + 2;
        Ok(v)
    }

    /// Reads a 32-bit little-endian integer.
    pub fn read_u32(&mut self) -> (r: Result<u32, RafsError>)
        ensures
            final(self).bytes() == old(self).bytes(),
            0 <= old(self).position() <= old(self).bytes().len(),
            0 <= final(self).position() <= final(self).bytes().len(),
            r is Ok <==> old(self).position() + 4 <= old(self).bytes().len(),
            r is Ok ==> r->Ok_0 == le_u32_at(old(self).bytes(), old(self).position())
                && final(self).position() == old(self).position() + 4,
            r is Err ==> r->Err_0 == RafsError::CorruptFormat && final(self).position() == old(
                self,
            ).position(),
    {
        proof {
            use_type_invariant(&*self);
        }
        if 4 > self.data.len() - self.pos {
            return Err(RafsError::CorruptFormat);
        }
        let v = get_le_u32(self.data, self.pos);
        self.pos = self.pos + 4;
        Ok(v)
    }

    /// Reads a 64-bit little-endian integer.
    pub fn read_u64(&mut self) -> (r: Result<u64, RafsError>)
        ensures
            final(self).bytes() == old(self).bytes(),
            0 <= old(self).position() <= old(self).bytes().len(),
            0 <= final(self).position() <= final(self).bytes().len(),
            r is Ok <==> old(self).position() + 8 <= old(self).bytes().len(),
            r is Ok ==> r->Ok_0 == le_u64_at(old(self).bytes(), old(self).position())
                && final(self).position() == old(self).position() + 8,
            r is Err ==> r->Err_0 == RafsError::CorruptFormat && final(self).position() == old(
                self,
            ).position(),
    {
        proof {
            use_type_invariant(&*self);
        }
        if 8 > self.data.len() - self.pos {
            return Err(RafsError::CorruptFormat);
        }
        let v = get_le_u64(self.data, self.pos);
        self.pos = self.pos + 8;
        Ok(v)
    }
}

} // verus!
