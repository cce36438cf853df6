//! The blob table: which blobs hold the chunks of an image.
//!
//! On disk an entry is two 32-bit integers followed by the blob identifier. A zero byte
//! ends every identifier but the last, and zeros pad the table to the alignment unit. An
//! identifier therefore holds no zero byte and is never empty.

use vstd::prelude::*;
use vstd::bytes::*;
use crate::bytes::{
    copy_range, get_le_u32, le_u32_at, padding_for, put_bytes, put_le_u32, put_zeros, zeros,
};
use crate::error::RafsError;
use crate::reader::RafsIoReader;
use crate::table::RafsV5ExtBlobTable;

verus! {

/// One blob of an image.
#[derive(Clone, Debug, PartialEq, Eq)]
pub struct RafsBlobEntry {
    /// Number of chunks in the blob; known only from the extended blob table.
    pub chunk_count: u32,
    /// Offset in the blob from which reading ahead pays.
    pub readahead_offset: u32,
    /// Number of bytes worth reading ahead.
    pub readahead_size: u32,
    /// The content-addressed identifier of the blob.
    pub blob_id: Vec<u8>,
    /// Position of the entry in the blob table.
    pub blob_index: u32,
    /// Size of the blob once decompressed; known only from the extended blob table.
    pub blob_cache_size: u64,
    /// Size of the blob as stored; known only from the extended blob table.
    pub compressed_blob_size: u64,
}

/// What the blob table stores of one blob.
pub struct BlobRecord {
    pub readahead_offset: u32,
    pub readahead_size: u32,
    pub blob_id: Seq<u8>,
}

impl BlobRecord {
    /// The identifier is not empty and holds no zero byte.
    pub open spec fn wf(self) -> bool {
        &&& self.blob_id.len() > 0
        &&& forall|j: int| 0 <= j < self.blob_id.len() ==> self.blob_id[j] != 0
    }

    /// The bytes that stand for the record on disk; `last` tells whether it is the last
    /// of its table, which has no zero byte behind its identifier.
    pub open spec fn encoded(self, last: bool) -> Seq<u8> {
        let body = spec_u32_to_le_bytes(self.readahead_offset) + spec_u32_to_le_bytes(
            self.readahead_size,
        ) + self.blob_id;
        if last {
            body
        } else {
            body + seq![0u8]
        }
    }
}

impl RafsBlobEntry {
    /// An entry with every field zero and an empty identifier.
    pub fn new() -> (e: Self)
        ensures
            e.blob_id@.len() == 0,
            e.chunk_count == 0 && e.readahead_offset == 0 && e.readahead_size == 0,
            e.blob_index == 0 && e.blob_cache_size == 0 && e.compressed_blob_size == 0,
    {
        RafsBlobEntry {
            chunk_count: 0,
            readahead_offset: 0,
            readahead_size: 0,
            blob_id: Vec::new(),
            blob_index: 0,
            blob_cache_size: 0,
            compressed_blob_size: 0,
        }
    }

    /// What the blob table stores of the entry.
    pub open spec fn record(&self) -> BlobRecord {
        BlobRecord {
            readahead_offset: self.readahead_offset,
            readahead_size: self.readahead_size,
            blob_id: self.blob_id@,
        }
    }

    /// The entry as it is after the blob table alone was read: at position `index`, with
    /// nothing known from the extended blob table.
    pub open spec fn loaded_as(&self, rec: BlobRecord, index: int) -> bool {
        &&& self.record() == rec
        &&& self.blob_index == index
        &&& self.chunk_count == 0
        &&& self.blob_cache_size == 0
        &&& self.compressed_blob_size == 0
    }
}

/// The position of the first zero byte of `t` at or behind `p`, or the length of `t`
/// where there is none.
pub open spec fn id_end(t: Seq<u8>, p: int) -> int
    decreases t.len() - p,
{
    if p < 0 || p >= t.len() {
        t.len() as int
    } else if t[p] == 0 {
        p
    } else {
        id_end(t, p + 1)
    }
}

/// Whether every byte of `t` from `from` on is zero.
pub open spec fn all_zero_from(t: Seq<u8>, from: int) -> bool {
    forall|j: int| from <= j < t.len() ==> t[j] == 0
}

/// The records of a table `t` from `pos` on, or `None` where `t` does not hold whole
/// records from there to its end: where an entry is cut short, an identifier is empty, or
/// what follows the last record is not padding.
pub open spec fn records_from(t: Seq<u8>, pos: int) -> Option<Seq<BlobRecord>>
    decreases t.len() - pos,
{
    if pos < 0 || pos + 8 >= t.len() {
        None
    } else {
        let end = id_end(t, pos + 8);
        if end <= pos + 8 {
            None
        } else {
            let rec = BlobRecord {
                readahead_offset: le_u32_at(t, pos),
                readahead_size: le_u32_at(t, pos + 4),
                blob_id: t.subrange(pos + 8, end),
            };
            if end + 1 >= t.len() {
                Some(seq![rec])
            } else if t.len() - (end + 1) <= 8 {
                if all_zero_from(t, end + 1) {
                    Some(seq![rec])
                } else {
                    None
                }
            } else {
                match records_from(t, end + 1) {
                    Some(rest) => Some(seq![rec] + rest),
                    None => None,
                }
            }
        }
    }
}

/// The records of a whole table. A table of no bytes holds no record.
pub open spec fn records_of(t: Seq<u8>) -> Option<Seq<BlobRecord>> {
    if t.len() == 0 {
        Some(Seq::empty())
    } else {
        records_from(t, 0)
    }
}

/// The records without padding, each but the last ended by a zero byte.
pub open spec fn records_encoded(recs: Seq<BlobRecord>) -> Seq<u8>
    decreases recs.len(),
{
    if recs.len() == 0 {
        Seq::empty()
    } else {
        recs[0].encoded(recs.len() == 1) + records_encoded(recs.subrange(1, recs.len() as int))
    }
}

/// The bytes that stand for a blob table on disk.
pub open spec fn table_encoded(recs: Seq<BlobRecord>) -> Seq<u8> {
    let body = records_encoded(recs);
    body + zeros((crate::bytes::align_up(body.len() as int) - body.len()) as nat)
}

/// The first zero byte at or behind `p` lies between `p` and the end, and no byte before
/// it is zero.
pub proof fn lemma_id_end(t: Seq<u8>, p: int)
    requires
        0 <= p <= t.len(),
    ensures
        p <= id_end(t, p) <= t.len(),
        id_end(t, p) < t.len() ==> t[id_end(t, p)] == 0,
        forall|j: int| p <= j < id_end(t, p) ==> t[j] != 0,
    decreases t.len() - p,
{
    if p < t.len() && t[p] != 0 {
        lemma_id_end(t, p + 1);
    }
}

/// An identifier of `n` bytes that starts at `p` ends where its `n` bytes end.
pub proof fn lemma_id_end_exact(t: Seq<u8>, p: int, n: int)
    requires
        0 <= p,
        0 <= n,
        p + n <= t.len(),
        forall|j: int| p <= j < p + n ==> t[j] != 0,
        p + n == t.len() || t[p + n] == 0,
    ensures
        id_end(t, p) == p + n,
    decreases n,
{
    if n > 0 {
        lemma_id_end_exact(t, p + 1, n - 1);
    }
}

/// Where an identifier ends does not depend on what stands before it.
pub proof fn lemma_id_end_suffix(pre: Seq<u8>, x: Seq<u8>, q: int)
    requires
        0 <= q <= x.len(),
    ensures
        id_end(pre + x, pre.len() + q) == pre.len() + id_end(x, q),
    decreases x.len() - q,
{
    if q < x.len() {
        assert((pre + x)[pre.len() + q] == x[q]);
        if x[q] != 0 {
            lemma_id_end_suffix(pre, x, q + 1);
        }
    }
}

/// The records of a table do not depend on what stands before the position they are
/// read from.
pub proof fn lemma_records_from_suffix(pre: Seq<u8>, x: Seq<u8>, q: int)
    requires
        0 <= q <= x.len(),
    ensures
        records_from(pre + x, pre.len() + q) == records_from(x, q),
    decreases x.len() - q,
{
    let t = pre + x;
    let pos = pre.len() + q;
    if q + 8 < x.len() {
        lemma_id_end_suffix(pre, x, q + 8);
        lemma_id_end(x, q + 8);
        let end_x = id_end(x, q + 8);
        let end_t = id_end(t, pos + 8);
        assert(end_t == pre.len() + end_x);
        if end_x > q + 8 {
            assert(t.subrange(pos as int, pos + 4) =~= x.subrange(q, q + 4));
            assert(t.subrange(pos + 4, pos + 8) =~= x.subrange(q + 4, q + 8));
            assert(t.subrange(pos + 8, end_t) =~= x.subrange(q + 8, end_x));
            if end_x + 1 < x.len() {
                if x.len() - (end_x + 1) <= 8 {
                    assert(all_zero_from(t, end_t + 1) == all_zero_from(x, end_x + 1)) by {
                        if all_zero_from(x, end_x + 1) {
                            assert forall|j: int| end_t + 1 <= j < t.len() implies t[j] == 0 by {
                                assert(t[j] == x[j - pre.len()]);
                            }
                        }
                        if all_zero_from(t, end_t + 1) {
                            assert forall|j: int| end_x + 1 <= j < x.len() implies x[j] == 0 by {
                                assert(t[j + pre.len()] == x[j]);
                            }
                        }
                    }
                } else {
                    lemma_records_from_suffix(pre, x, end_x + 1);
                }
            }
        }
    }
}

/// The records of a table with at least one record take nine bytes or more.
pub proof fn lemma_records_encoded_len(recs: Seq<BlobRecord>)
    requires
        recs.len() > 0,
        recs[0].wf(),
    ensures
        records_encoded(recs).len() >= 9,
{
    lemma_auto_spec_u32_to_from_le_bytes();
}

/// Records that are encoded, padded with fewer than eight zeros and decoded again are
/// unchanged.
pub proof fn lemma_records_roundtrip(recs: Seq<BlobRecord>, pad: nat)
    requires
        recs.len() > 0,
        forall|k: int| 0 <= k < recs.len() ==> (#[trigger] recs[k]).wf(),
        pad < 8,
    ensures
        records_from(records_encoded(recs) + zeros(pad), 0) == Some(recs),
    decreases recs.len(),
{
    lemma_auto_spec_u32_to_from_le_bytes();
    let r = recs[0];
    let rest = recs.subrange(1, recs.len() as int);
    let n = r.blob_id.len() as int;
    let last = recs.len() == 1;
    let enc = r.encoded(last);
    let tail = records_encoded(rest) + zeros(pad);
    let t = records_encoded(recs) + zeros(pad);
    assert(t =~= enc + tail);
    assert(t.subrange(0, 4) =~= spec_u32_to_le_bytes(r.readahead_offset));
    assert(t.subrange(4, 8) =~= spec_u32_to_le_bytes(r.readahead_size));
    assert forall|j: int| 8 <= j < 8 + n implies t[j] != 0 by {
        assert(t[j] == r.blob_id[j - 8]);
    }
    if last {
        assert(records_encoded(rest) =~= Seq::<u8>::empty());
        assert(t.len() == 8 + n + pad);
        if pad > 0 {
            assert(t[8 + n] == 0);
        }
        lemma_id_end_exact(t, 8, n);
        assert(t.subrange(8, 8 + n) =~= r.blob_id);
        assert(seq![r] =~= recs);
    } else {
        assert(t[8 + n] == 0);
        lemma_id_end_exact(t, 8, n);
        assert(t.subrange(8, 8 + n) =~= r.blob_id);
        assert(rest[0] == recs[1]);
        lemma_records_encoded_len(rest);
        assert forall|k: int| 0 <= k < rest.len() implies (#[trigger] rest[k]).wf() by {
            assert(rest[k] == recs[k + 1]);
        }
        lemma_records_roundtrip(rest, pad);
        lemma_records_from_suffix(enc, tail, 0);
        assert(enc.len() == 9 + n);
        assert(seq![r] + rest =~= recs);
    }
}

/// A blob table that is encoded and then decoded is unchanged: every record keeps its
/// read-ahead window and its identifier. This holds of records whose identifiers are not
/// empty and hold no zero byte.
pub proof fn lemma_blob_table_roundtrip(recs: Seq<BlobRecord>)
    requires
        forall|k: int| 0 <= k < recs.len() ==> (#[trigger] recs[k]).wf(),
    ensures
        table_encoded(recs).len() % 8 == 0,
        records_of(table_encoded(recs)) == Some(recs),
{
    let body = records_encoded(recs);
    let pad = (crate::bytes::align_up(body.len() as int) - body.len()) as nat;
    if recs.len() == 0 {
        assert(recs =~= Seq::<BlobRecord>::empty());
        assert(table_encoded(recs) =~= Seq::<u8>::empty());
    } else {
        lemma_records_encoded_len(recs);
        lemma_records_roundtrip(recs, pad);
    }
}

/// The blob table of an image.
#[derive(Clone, Debug, PartialEq, Eq)]
pub struct RafsV5BlobTable {
    pub entries: Vec<RafsBlobEntry>,
}

impl RafsV5BlobTable {
    /// What the table stores of its blobs, in order.
    pub open spec fn records(&self) -> Seq<BlobRecord> {
        Seq::new(self.entries@.len(), |k: int| self.entries@[k].record())
    }

    /// The entries are those of a table that was read from `recs` and nothing else.
    pub open spec fn loaded_as(&self, recs: Seq<BlobRecord>) -> bool {
        &&& self.entries@.len() == recs.len()
        &&& forall|k: int| 0 <= k < recs.len() ==> (#[trigger] self.entries@[k]).loaded_as(recs[k], k)
    }

    /// An empty table.
    pub fn new() -> (t: Self)
        ensures
            t.entries@.len() == 0,
    {
        RafsV5BlobTable { entries: Vec::new() }
    }

    /// The number of blobs.
    pub fn len(&self) -> (n: usize)
        ensures
            n == self.entries@.len(),
    {
        self.entries.len()
    }

    /// Loads the table of `blob_table_size` bytes that starts at the reader's position and
    /// advances past it. A table of no bytes has no entry. Fails with `CorruptFormat`,
    /// changing nothing, where the stream ends before the table does or the table does not
    /// hold whole records to its end.
    pub fn load(&mut self, r: &mut RafsIoReader, blob_table_size: u32) -> (res: Result<
        (),
        RafsError,
    >)
        ensures
            final(r).bytes() == old(r).bytes(),
            0 <= old(r).position() <= old(r).bytes().len(),
            res is Ok <==> old(r).position() + blob_table_size <= old(r).bytes().len()
                && records_of(
                old(r).bytes().subrange(old(r).position(), old(r).position() + blob_table_size),
            ) is Some,
            res is Ok ==> final(self).loaded_as(
                records_of(
                    old(r).bytes().subrange(
                        old(r).position(),
                        old(r).position() + blob_table_size,
                    ),
                )->0,
            ) && final(r).position() == old(r).position() + blob_table_size,
            res is Err ==> res->Err_0 == RafsError::CorruptFormat && *final(self) == *old(self)
                && final(r).position() == old(r).position(),
    {
        let start = r.offset();
        let t = match r.read_exact(blob_table_size as usize) {
            Ok(t) => t,
            Err(e) => {
                return Err(e);
            },
        };
        match parse_blob_table(t) {
            Some(entries) => {
                self.entries = entries;
                Ok(())
            },
            None => {
                let back = r.seek_to_offset(start);
                Err(RafsError::CorruptFormat)
            },
        }
    }

    /// The blob at `index`. Fails with `NotFound` exactly where the table has none.
    pub fn get(&self, index: u32) -> (res: Result<&RafsBlobEntry, RafsError>)
        ensures
            res is Ok <==> index < self.entries@.len(),
            res is Ok ==> *(res->Ok_0) == self.entries@[index as int],
            res is Err ==> res->Err_0 == RafsError::NotFound,
    {
        if index as usize >= self.entries.len() {
            return Err(RafsError::NotFound);
        }
        Ok(&self.entries[index as usize])
    }

    /// Copies into every entry what the extended blob table holds at the same position.
    /// Entries beyond the end of the extended table are left as they are.
    pub fn merge_extended(&mut self, ext: &RafsV5ExtBlobTable)
        ensures
            final(self).entries@.len() == old(self).entries@.len(),
            forall|k: int|
                0 <= k < old(self).entries@.len() ==> {
                    let before = #[trigger] old(self).entries@[k];
                    let after = final(self).entries@[k];
                    &&& after.record() == before.record()
                    &&& after.blob_index == before.blob_index
                    &&& k < ext@.len() ==> after.chunk_count == ext@[k].chunk_count
                        && after.blob_cache_size == ext@[k].blob_cache_size
                        && after.compressed_blob_size == ext@[k].compressed_blob_size
                    &&& k >= ext@.len() ==> after.chunk_count == before.chunk_count
                        && after.blob_cache_size == before.blob_cache_size
                        && after.compressed_blob_size == before.compressed_blob_size
                },
    {
        let n = self.entries.len();
        let mut k: usize = 0;
        while k < n
            invariant
                k <= n,
                n == old(self).entries@.len(),
                self.entries@.len() == n,
                forall|j: int| k <= j < n ==> self.entries@[j] == old(self).entries@[j],
                forall|j: int|
                    0 <= j < k ==> {
                        let before = #[trigger] old(self).entries@[j];
                        let after = self.entries@[j];
                        &&& after.record() == before.record()
                        &&& after.blob_index == before.blob_index
                        &&& j < ext@.len() ==> after.chunk_count == ext@[j].chunk_count
                            && after.blob_cache_size == ext@[j].blob_cache_size
                            && after.compressed_blob_size == ext@[j].compressed_blob_size
                        &&& j >= ext@.len() ==> after.chunk_count == before.chunk_count
                            && after.blob_cache_size == before.blob_cache_size
                            && after.compressed_blob_size == before.compressed_blob_size
                    },
            decreases n - k,
        {
            if k < ext.entries.len() {
                let e = ext.entries[k];
                let ghost prev = self.entries@;
                let entry = &mut self.entries[k];
                entry.chunk_count = e.chunk_count;
                entry.blob_cache_size = e.blob_cache_size;
                entry.compressed_blob_size = e.compressed_blob_size;
                assert(self.entries@.len() == n);
                assert(forall|j: int| 0 <= j < n && j != k ==> self.entries@[j] == prev[j]);
                assert(self.entries@[k as int].record() == prev[k as int].record());
            }
            k = k + 1;
        }
    }

    /// Appends the table to `buf`: every record, a zero byte behind each but the last,
    /// and zeros up to the alignment unit.
    pub fn store(&self, buf: &mut Vec<u8>)
        ensures
            final(buf)@ == old(buf)@ + table_encoded(self.records()),
    {
        let ghost before = buf@;
        let ghost recs = self.records();
        let n = self.entries.len();
        let mut body: Vec<u8> = Vec::new();
        let mut k: usize = n;
        assert(recs.subrange(n as int, n as int) =~= Seq::<BlobRecord>::empty());
        while k > 0
            invariant
                k <= n,
                n == self.entries@.len(),
                recs == self.records(),
                body@ == records_encoded(recs.subrange(k as int, n as int)),
            decreases k,
        {
            k = k - 1;
            let e = &self.entries[k];
            let mut piece: Vec<u8> = Vec::new();
            put_le_u32(&mut piece, e.readahead_offset);
            put_le_u32(&mut piece, e.readahead_size);
            put_bytes(&mut piece, e.blob_id.as_slice());
            if k + 1 != n {
                piece.push(0u8);
            }
            proof {
                let tail = recs.subrange(k as int, n as int);
                assert(tail[0] == e.record());
                assert(tail.subrange(1, tail.len() as int) =~= recs.subrange(k + 1, n as int));
                assert(piece@ =~= e.record().encoded(k + 1 == n));
            }
            piece.append(&mut body);
            body = piece;
        }
        assert(recs.subrange(0, n as int) =~= recs);
        let pad = padding_for(body.len());
        put_bytes(buf, body.as_slice());
        put_zeros(buf, pad);
        assert(buf@ =~= before + table_encoded(recs));
    }
}

/// Tells whether every byte of `t` from `from` on is zero.
fn is_padding(t: &[u8], from: usize) -> (r: bool)
    requires
        from <= t@.len(),
    ensures
        r == all_zero_from(t@, from as int),
{
    let len = t.len();
    let mut j: usize = from;
    while j < len
        invariant
            from <= j <= len,
            len == t@.len(),
            forall|i: int| from <= i < j ==> t@[i] == 0,
        decreases len - j,
    {
        if t[j] != 0 {
            return false;
        }
        j = j + 1;
    }
    true
}

/// The entries of the table held in `t`, or `None` where `t` does not hold whole records
/// to its end.
pub fn parse_blob_table(t: &[u8]) -> (res: Option<Vec<RafsBlobEntry>>)
    requires
        t@.len() <= u32::MAX,
    ensures
        res is Some <==> records_of(t@) is Some,
        res is Some ==> (RafsV5BlobTable { entries: res->0 }).loaded_as(records_of(t@)->0),
{
    let len = t.len();
    let mut entries: Vec<RafsBlobEntry> = Vec::new();
    if len == 0 {
        return Some(entries);
    }
    let mut pos: usize = 0;
    let ghost mut acc: Seq<BlobRecord> = Seq::empty();
    loop
        invariant
            len == t@.len(),
            len <= u32::MAX,
            0 <= pos < len,
            entries@.len() == acc.len(),
            9 * acc.len() <= pos,
            forall|k: int| 0 <= k < acc.len() ==> (#[trigger] entries@[k]).loaded_as(acc[k], k),
            records_from(t@, pos as int) is None ==> records_from(t@, 0) is None,
            records_from(t@, pos as int) is Some ==> records_from(t@, 0) == Some(
                acc + records_from(t@, pos as int)->0,
            ),
        decreases len - pos,
    {
        if len - pos <= 8 {
            return None;
        }
        let mut end: usize = pos + 8;
        while end < len && t[end] != 0
            invariant
                pos + 8 <= end <= len,
                len == t@.len(),
                id_end(t@, pos + 8) == id_end(t@, end as int),
            decreases len - end,
        {
            end = end + 1;
        }
        proof {
            lemma_id_end(t@, end as int);
            assert(id_end(t@, pos + 8) == end);
        }
        if end == pos + 8 {
            return None;
        }
        let entry = RafsBlobEntry {
            chunk_count: 0,
            readahead_offset: get_le_u32(t, pos),
            readahead_size: get_le_u32(t, pos + 4),
            blob_id: copy_range(t, pos + 8, end),
            blob_index: entries.len() as u32,
            blob_cache_size: 0,
            compressed_blob_size: 0,
        };
        let ghost rec = entry.record();
        let ghost before = acc;
        assert(entry.loaded_as(rec, before.len() as int));
        entries.push(entry);
        proof {
            acc = acc.push(rec);
            assert(rec.blob_id == t@.subrange(pos + 8, end as int));
            assert forall|k: int| 0 <= k < acc.len() implies (#[trigger] entries@[k]).loaded_as(
                acc[k],
                k,
            ) by {
                if k < before.len() {
                    assert(acc[k] == before[k]);
                }
            }
        }
        if len - end <= 1 {
            proof {
                assert(before + seq![rec] =~= acc);
            }
            return Some(entries);
        }
        if len - (end + 1) <= 8 {
            if !is_padding(t, end + 1) {
                return None;
            }
            proof {
                assert(before + seq![rec] =~= acc);
            }
            return Some(entries);
        }
        proof {
            let next = records_from(t@, end + 1);
            if next is Some {
                assert(before + (seq![rec] + next->0) =~= acc + next->0);
            }
        }
        pos = end + 1;
    }
}

} // verus!
