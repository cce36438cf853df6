//! Content digests, the identity of chunks and inodes.

use vstd::prelude::*;
use vstd::bytes::*;
use crate::bytes::{get_le_u64, le_u64_at, put_le_u64};

verus! {

/// Number of bytes in a digest.
pub const RAFS_DIGEST_LENGTH: usize = 32;

/// A 32-byte cryptographic fingerprint of some content.
///
/// The bytes are held as four little-endian 64-bit words, so that two digests are equal
/// exactly when their four words are.
#[derive(Clone, Copy, Debug, PartialEq, Eq, Structural, Hash)]
pub struct RafsDigest {
    pub w0: u64,
    pub w1: u64,
    pub w2: u64,
    pub w3: u64,
}

impl View for RafsDigest {
    type V = Seq<u8>;

    /// The 32 bytes of the digest.
    open spec fn view(&self) -> Seq<u8> {
        spec_u64_to_le_bytes(self.w0) + spec_u64_to_le_bytes(self.w1) + spec_u64_to_le_bytes(
            self.w2,
        ) + spec_u64_to_le_bytes(self.w3)
    }
}

impl RafsDigest {
    /// The digest stored in the 32 bytes of `s` that start at `off`.
    pub open spec fn decoded(s: Seq<u8>, off: int) -> RafsDigest {
        RafsDigest {
            w0: le_u64_at(s, off),
            w1: le_u64_at(s, off + 8),
            w2: le_u64_at(s, off + 16),
            w3: le_u64_at(s, off + 24),
        }
    }

    /// The digest of all zero bytes, which stands for "no digest".
    pub fn new() -> (d: Self)
        ensures
            d == (RafsDigest { w0: 0, w1: 0, w2: 0, w3: 0 }),
    {
        RafsDigest { w0: 0, w1: 0, w2: 0, w3: 0 }
    }

    /// The digest stored in the 32 bytes of `data` that start at `off`.
    pub fn from_bytes(data: &[u8], off: usize) -> (d: Self)
        requires
            off + 32 <= data@.len(),
        ensures
            d == Self::decoded(data@, off as int),
    {
        let end = data.len();
        assert(off + 32 <= end);
        RafsDigest {
            w0: get_le_u64(data, off),
            w1: get_le_u64(data, off + 8),
            w2: get_le_u64(data, off + 16),
            w3: get_le_u64(data, off + 24),
        }
    }

    /// The digest held in `data`, if `data` is exactly 32 bytes long.
    pub fn from_buf(data: &[u8]) -> (d: Option<Self>)
        ensures
            d is Some <==> data@.len() == 32,
            d is Some ==> d->0 == Self::decoded(data@, 0),
    {
        if data.len() != RAFS_DIGEST_LENGTH {
            return None;
        }
        Some(Self::from_bytes(data, 0))
    }

    /// Appends the 32 bytes of the digest to `buf`.
    pub fn store(&self, buf: &mut Vec<u8>)
        ensures
            final(buf)@ == old(buf)@ + self@,
    {
        let ghost before = buf@;
        put_le_u64(buf, self.w0);
        put_le_u64(buf, self.w1);
        put_le_u64(buf, self.w2);
        put_le_u64(buf, self.w3);
        assert(buf@ =~= before + self@);
    }

    /// The 32 bytes of the digest.
    pub fn to_bytes(&self) -> (v: Vec<u8>)
        ensures
            v@ == self@,
    {
        let mut v: Vec<u8> = Vec::new();
        self.store(&mut v);
        assert(v@ =~= self@);
        v
    }

    /// Every digest holds exactly 32 bytes.
    pub proof fn lemma_len(self)
        ensures
            self@.len() == 32,
    {
        lemma_auto_spec_u64_to_from_le_bytes();
    }

    /// A digest written between `a` and `b` reads back at `a.len()`.
    pub proof fn lemma_field(a: Seq<u8>, d: RafsDigest, b: Seq<u8>)
        ensures
            d@.len() == 32,
            Self::decoded(a + d@ + b, a.len() as int) == d,
    {
        lemma_auto_spec_u64_to_from_le_bytes();
        let s = a + d@ + b;
        let n = a.len() as int;
        assert(s.subrange(n, n + 8) =~= spec_u64_to_le_bytes(d.w0));
        assert(s.subrange(n + 8, n + 16) =~= spec_u64_to_le_bytes(d.w1));
        assert(s.subrange(n + 16, n + 24) =~= spec_u64_to_le_bytes(d.w2));
        assert(s.subrange(n + 24, n + 32) =~= spec_u64_to_le_bytes(d.w3));
    }

    /// Two digests with the same bytes are the same digest.
    pub proof fn lemma_view_injective(self, other: RafsDigest)
        requires
            self@ == other@,
        ensures
            self == other,
    {
        Self::lemma_field(Seq::empty(), self, Seq::empty());
        Self::lemma_field(Seq::empty(), other, Seq::empty());
        assert(Seq::<u8>::empty() + self@ + Seq::<u8>::empty() =~= self@);
        assert(Seq::<u8>::empty() + other@ + Seq::<u8>::empty() =~= other@);
    }
}

} // verus!
