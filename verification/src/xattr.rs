//! The extended attributes of an inode as the bootstrap stores them.
//!
//! The block of an inode starts with a header, the size of what follows. Then every
//! attribute stands as the 32-bit size of its pair and the pair itself: the name, a zero
//! byte, the value. A name therefore holds no zero byte. Zeros pad the block to the
//! alignment unit.

use vstd::prelude::*;
use vstd::bytes::*;
use crate::blob_table::{id_end, lemma_id_end, lemma_id_end_exact};
use crate::bytes::{copy_range, get_le_u32, le_u32_at, le_u64_at, put_bytes, put_le_u32};
use crate::error::RafsError;
use crate::inspect::RafsInspector;
use crate::reader::RafsIoReader;
use crate::table::table_offset;
use crate::visitor::bytes_eq;

verus! {

/// The names and values held by a sequence of pairs, as mathematical values.
pub open spec fn pair_views(v: Seq<(Vec<u8>, Vec<u8>)>) -> Seq<(Seq<u8>, Seq<u8>)> {
    Seq::new(v.len(), |i: int| (v[i].0@, v[i].1@))
}

/// The attributes stored in `t` from `pos` on, or `None` where `t` does not hold whole
/// pairs from there to its end: where a size or a pair is cut short, or a pair holds no
/// zero byte to end its name.
pub open spec fn pairs_from(t: Seq<u8>, pos: int) -> Option<Seq<(Seq<u8>, Seq<u8>)>>
    decreases t.len() - pos,
{
    if pos < 0 || pos >= t.len() {
        Some(Seq::empty())
    } else if pos + 4 > t.len() {
        None
    } else {
        let n = le_u32_at(t, pos) as int;
        let start = pos + 4;
        if start + n > t.len() {
            None
        } else {
            let pair = t.subrange(start, start + n);
            let nul = id_end(pair, 0);
            if nul >= n {
                None
            } else {
                match pairs_from(t, start + n) {
                    None => None,
                    Some(rest) => Some(
                        seq![(pair.subrange(0, nul), pair.subrange(nul + 1, n))] + rest,
                    ),
                }
            }
        }
    }
}

/// The bytes that stand for one attribute: the size of the pair, the name, a zero byte,
/// the value.
pub open spec fn pair_encoded(name: Seq<u8>, value: Seq<u8>) -> Seq<u8> {
    spec_u32_to_le_bytes((name.len() + 1 + value.len()) as u32) + name + seq![0u8] + value
}

/// The bytes that stand for the attributes `pairs`, without header and padding.
pub open spec fn pairs_encoded(pairs: Seq<(Seq<u8>, Seq<u8>)>) -> Seq<u8>
    decreases pairs.len(),
{
    if pairs.len() == 0 {
        Seq::empty()
    } else {
        pairs_encoded(pairs.drop_last()) + pair_encoded(pairs.last().0, pairs.last().1)
    }
}

/// Whether an attribute can be stored: its name holds no zero byte, and its pair is not
/// longer than 32 bits can say.
pub open spec fn storable(pair: (Seq<u8>, Seq<u8>)) -> bool {
    &&& pair.0.len() + 1 + pair.1.len() <= u32::MAX
    &&& forall|j: int| 0 <= j < pair.0.len() ==> pair.0[j] != 0
}

/// The bytes of a list of attributes are those of its first behind which stand those of
/// the rest.
pub proof fn lemma_pairs_encoded_front(pairs: Seq<(Seq<u8>, Seq<u8>)>)
    requires
        pairs.len() > 0,
    ensures
        pairs_encoded(pairs) == pair_encoded(pairs[0].0, pairs[0].1) + pairs_encoded(
            pairs.subrange(1, pairs.len() as int),
        ),
    decreases pairs.len(),
{
    let rest = pairs.subrange(1, pairs.len() as int);
    if pairs.len() == 1 {
        assert(pairs.drop_last() =~= Seq::<(Seq<u8>, Seq<u8>)>::empty());
        assert(rest =~= Seq::<(Seq<u8>, Seq<u8>)>::empty());
        assert(pairs_encoded(pairs) =~= pair_encoded(pairs[0].0, pairs[0].1) + pairs_encoded(rest));
    } else {
        let front = pairs.drop_last();
        lemma_pairs_encoded_front(front);
        assert(front.subrange(1, front.len() as int) =~= rest.drop_last());
        assert(rest.last() == pairs.last());
        assert(pairs_encoded(pairs) =~= pair_encoded(pairs[0].0, pairs[0].1) + pairs_encoded(rest));
    }
}

/// The attributes of a block do not depend on what stands before the position they are
/// read from.
pub proof fn lemma_pairs_from_suffix(pre: Seq<u8>, x: Seq<u8>, q: int)
    requires
        0 <= q <= x.len(),
    ensures
        pairs_from(pre + x, pre.len() + q) == pairs_from(x, q),
    decreases x.len() - q,
{
    let t = pre + x;
    let pos = pre.len() + q;
    if q < x.len() && q + 4 <= x.len() {
        assert(t.subrange(pos as int, pos + 4) =~= x.subrange(q, q + 4));
        let n = le_u32_at(x, q) as int;
        if q + 4 + n <= x.len() {
            assert(t.subrange(pos + 4, pos + 4 + n) =~= x.subrange(q + 4, q + 4 + n));
            lemma_pairs_from_suffix(pre, x, q + 4 + n);
        }
    }
}

/// Attributes that are encoded and then decoded are unchanged, names and values byte for
/// byte and in their order.
pub proof fn lemma_xattr_roundtrip(pairs: Seq<(Seq<u8>, Seq<u8>)>)
    requires
        forall|k: int| 0 <= k < pairs.len() ==> storable(#[trigger] pairs[k]),
    ensures
        pairs_from(pairs_encoded(pairs), 0) == Some(pairs),
    decreases pairs.len(),
{
    if pairs.len() == 0 {
        assert(pairs =~= Seq::<(Seq<u8>, Seq<u8>)>::empty());
    } else {
        lemma_auto_spec_u32_to_from_le_bytes();
        let (name, value) = pairs[0];
        let rest = pairs.subrange(1, pairs.len() as int);
        let n = (name.len() + 1 + value.len()) as int;
        let enc = pair_encoded(name, value);
        let tail = pairs_encoded(rest);
        let t = pairs_encoded(pairs);
        assert(storable(pairs[0]));
        lemma_pairs_encoded_front(pairs);
        assert(t == enc + tail);
        assert(t.subrange(0, 4) =~= spec_u32_to_le_bytes(n as u32));
        let pair = t.subrange(4, 4 + n);
        assert(pair =~= name + seq![0u8] + value);
        assert forall|j: int| 0 <= j < name.len() implies pair[j] != 0 by {
            assert(pair[j] == name[j]);
        }
        assert(pair[name.len() as int] == 0);
        lemma_id_end_exact(pair, 0, name.len() as int);
        assert(pair.subrange(0, name.len() as int) =~= name);
        assert(pair.subrange(name.len() as int + 1, n) =~= value);
        assert forall|k: int| 0 <= k < rest.len() implies storable(#[trigger] rest[k]) by {
            assert(rest[k] == pairs[k + 1]);
        }
        lemma_xattr_roundtrip(rest);
        lemma_pairs_from_suffix(enc, tail, 0);
        assert(seq![(name, value)] + rest =~= pairs);
    }
}

/// The attributes held in `t`, or `None` where `t` does not hold whole pairs to its end.
pub fn parse_xattr_pairs(t: &[u8]) -> (res: Option<Vec<(Vec<u8>, Vec<u8>)>>)
    ensures
        res is Some <==> pairs_from(t@, 0) is Some,
        res is Some ==> pair_views(res->0@) == pairs_from(t@, 0)->0,
{
    let len = t.len();
    let mut out: Vec<(Vec<u8>, Vec<u8>)> = Vec::new();
    let mut pos: usize = 0;
    assert(pair_views(out@) =~= Seq::<(Seq<u8>, Seq<u8>)>::empty());
    while pos < len
        invariant
            len == t@.len(),
            pos <= len,
            pairs_from(t@, pos as int) is None ==> pairs_from(t@, 0) is None,
            pairs_from(t@, pos as int) is Some ==> pairs_from(t@, 0) == Some(
                pair_views(out@) + pairs_from(t@, pos as int)->0,
            ),
        decreases len - pos,
    {
        if len - pos < 4 {
            return None;
        }
        let n = get_le_u32(t, pos) as usize;
        let start = pos + 4;
        if n > len - start {
            return None;
        }
        let ghost pair = t@.subrange(start as int, start + n);
        let mut nul: usize = start;
        while nul < start + n && t[nul] != 0
            invariant
                start <= nul <= start + n <= len,
                len == t@.len(),
                pair == t@.subrange(start as int, start + n),
                id_end(pair, 0) == id_end(pair, nul - start),
            decreases start + n - nul,
        {
            assert(pair[nul - start] == t@[nul as int]);
            nul = nul + 1;
        }
        proof {
            if nul < start + n {
                assert(pair[nul - start] == t@[nul as int]);
            }
            lemma_id_end(pair, nul - start);
            assert(id_end(pair, 0) == nul - start);
        }
        if nul >= start + n {
            return None;
        }
        let name = copy_range(t, start, nul);
        let value = copy_range(t, nul + 1, start + n);
        let ghost before = pair_views(out@);
        let ghost view = (name@, value@);
        assert(name@ =~= pair.subrange(0, nul - start));
        assert(value@ =~= pair.subrange(nul - start + 1, n as int));
        out.push((name, value));
        proof {
            assert(pair_views(out@) =~= before.push(view));
            let next = pairs_from(t@, start + n);
            if next is Some {
                assert(before + (seq![view] + next->0) =~= pair_views(out@) + next->0);
            }
        }
        pos = start + n;
    }
    assert(pair_views(out@) + Seq::<(Seq<u8>, Seq<u8>)>::empty() =~= pair_views(out@));
    Some(out)
}

/// Appends the attributes `pairs` to `buf`, without header and padding.
pub fn store_xattr_pairs(pairs: &Vec<(Vec<u8>, Vec<u8>)>, buf: &mut Vec<u8>)
    requires
        forall|k: int|
            0 <= k < pairs@.len() ==> (#[trigger] pairs@[k]).0@.len() + 1 + pairs@[k].1@.len()
                <= u32::MAX,
    ensures
        final(buf)@ == old(buf)@ + pairs_encoded(pair_views(pairs@)),
{
    let ghost before = buf@;
    let ghost views = pair_views(pairs@);
    let mut k: usize = 0;
    assert(views.subrange(0, 0) =~= Seq::<(Seq<u8>, Seq<u8>)>::empty());
    while k < pairs.len()
        invariant
            k <= pairs@.len(),
            views == pair_views(pairs@),
            forall|j: int|
                0 <= j < pairs@.len() ==> (#[trigger] pairs@[j]).0@.len() + 1 + pairs@[j].1@.len()
                    <= u32::MAX,
            buf@ == before + pairs_encoded(views.subrange(0, k as int)),
        decreases pairs@.len() - k,
    {
        let pair = &pairs[k];
        let ghost so_far = buf@;
        put_le_u32(buf, (pair.0.len() + 1 + pair.1.len()) as u32);
        put_bytes(buf, pair.0.as_slice());
        buf.push(0u8);
        put_bytes(buf, pair.1.as_slice());
        proof {
            let next = views.subrange(0, k + 1);
            assert(next.drop_last() =~= views.subrange(0, k as int));
            assert(next.last() == views[k as int]);
            assert(buf@ =~= so_far + pair_encoded(pair.0@, pair.1@));
            assert(buf@ =~= before + pairs_encoded(next));
        }
        k = k + 1;
    }
    assert(views.subrange(0, k as int) =~= views);
}

impl RafsInspector {
    /// The extended attributes of the inode with table index `index`, in stored order:
    /// none for an inode without the flag for them, `CorruptFormat` where the stream ends
    /// before the block does or the block does not hold whole pairs.
    pub open spec fn xattrs_of(&self, index: int) -> Result<Seq<(Seq<u8>, Seq<u8>)>, RafsError> {
        match self.inode_by_index(index) {
            Err(e) => Err(e),
            Ok((inode, _)) => if !inode.spec_has_xattr() {
                Ok(Seq::empty())
            } else {
                let s = self.bootstrap@;
                let at = table_offset(self.inodes_table@, index) + inode.spec_size();
                if at + 8 > s.len() {
                    Err(RafsError::CorruptFormat)
                } else if at + 8 + le_u64_at(s, at) > s.len() {
                    Err(RafsError::CorruptFormat)
                } else {
                    match pairs_from(s.subrange(at + 8, at + 8 + le_u64_at(s, at)), 0) {
                        None => Err(RafsError::CorruptFormat),
                        Some(pairs) => Ok(pairs),
                    }
                }
            },
        }
    }

    /// Decodes the extended attributes of the inode with table index `index`, names and
    /// values in stored order.
    pub fn get_xattrs(&self, index: u32) -> (res: Result<Vec<(Vec<u8>, Vec<u8>)>, RafsError>)
        ensures
            match self.xattrs_of(index as int) {
                Err(e) => res == Err::<Vec<(Vec<u8>, Vec<u8>)>, RafsError>(e),
                Ok(pairs) => res is Ok && pair_views(res->Ok_0@) == pairs,
            },
    {
        let (inode, _) = match self.load_inode_by_index(index as usize) {
            Ok(found) => found,
            Err(e) => {
                return Err(e);
            },
        };
        let inode_offset = match self.inodes_table.offset_of(index as usize) {
            Ok(o) => o,
            Err(e) => {
                return Err(e);
            },
        };
        if !inode.has_xattr() {
            let none: Vec<(Vec<u8>, Vec<u8>)> = Vec::new();
            assert(pair_views(none@) =~= Seq::<(Seq<u8>, Seq<u8>)>::empty());
            return Ok(none);
        }
        let mut r = RafsIoReader::new(self.bootstrap.as_slice());
        match r.seek_to_offset(inode_offset + inode.size()) {
            Ok(()) => {},
            Err(e) => {
                return Err(e);
            },
        }
        let size = match r.read_u64() {
            Ok(v) => v,
            Err(e) => {
                return Err(e);
            },
        };
        let total = r.len();
        if size > total as u64 {
            return Err(RafsError::CorruptFormat);
        }
        let block = match r.read_exact(size as usize) {
            Ok(b) => b,
            Err(e) => {
                return Err(e);
            },
        };
        match parse_xattr_pairs(block) {
            Some(pairs) => Ok(pairs),
            None => Err(RafsError::CorruptFormat),
        }
    }

    /// The value of the first extended attribute with the name `name` of the inode with
    /// table index `index`, or `None` where the inode has none of that name.
    pub fn get_xattr(&self, index: u32, name: &[u8]) -> (res: Result<Option<Vec<u8>>, RafsError>)
        ensures
            match self.xattrs_of(index as int) {
                Err(e) => res == Err::<Option<Vec<u8>>, RafsError>(e),
                Ok(pairs) => res is Ok && match first_named(pairs, name@, 0) {
                    Some(k) => res->Ok_0 is Some && res->Ok_0->0@ == pairs[k].1,
                    None => res->Ok_0 is None,
                },
            },
    {
        let pairs = match self.get_xattrs(index) {
            Ok(pairs) => pairs,
            Err(e) => {
                return Err(e);
            },
        };
        let ghost views = pair_views(pairs@);
        let n = pairs.len();
        let mut k: usize = 0;
        while k < n
            invariant
                k <= n,
                n == pairs@.len(),
                views == pair_views(pairs@),
                self.xattrs_of(index as int) == Ok::<Seq<(Seq<u8>, Seq<u8>)>, RafsError>(views),
                first_named(views, name@, 0) == first_named(views, name@, k as int),
            decreases n - k,
        {
            let pair = &pairs[k];
            assert(views[k as int] == (pair.0@, pair.1@));
            if bytes_eq(pair.0.as_slice(), name) {
                let v = copy_range(pair.1.as_slice(), 0, pair.1.len());
                assert(v@ =~= pair.1@);
                return Ok(Some(v));
            }
            k = k + 1;
        }
        Ok(None)
    }
}

/// The position of the first attribute of `pairs` at or behind `k` whose name is `name`.
pub open spec fn first_named(pairs: Seq<(Seq<u8>, Seq<u8>)>, name: Seq<u8>, k: int) -> Option<int>
    decreases pairs.len() - k,
{
    if k < 0 || k >= pairs.len() {
        None
    } else if pairs[k].0 == name {
        Some(k)
    } else {
        first_named(pairs, name, k + 1)
    }
}

} // verus!
