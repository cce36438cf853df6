//! The digest-to-chunk index that decides, while an image is built, whether the content
//! of a chunk is already stored.
//!
//! Two chunks are the same content exactly when their digests are equal; nothing else is
//! compared.

use vstd::prelude::*;
use std::collections::HashMap;
use crate::blob_table::RafsV5BlobTable;
use crate::bytes::copy_range;
use crate::chunk::RafsV5ChunkInfo;
use crate::digest::RafsDigest;

verus! {

broadcast use vstd::std_specs::hash::group_hash_axioms;

/// What is known of one blob while an image is built.
#[derive(Clone, Debug, PartialEq, Eq)]
pub struct BlobContext {
    pub blob_id: Vec<u8>,
    pub chunk_count: u32,
    pub readahead_size: u32,
    pub blob_cache_size: u64,
    pub compressed_blob_size: u64,
}

impl View for BlobContext {
    type V = (Seq<u8>, u32, u32, u64, u64);

    open spec fn view(&self) -> (Seq<u8>, u32, u32, u64, u64) {
        (
            self.blob_id@,
            self.chunk_count,
            self.readahead_size,
            self.blob_cache_size,
            self.compressed_blob_size,
        )
    }
}

impl BlobContext {
    /// A blob context made of its parts.
    pub fn from(
        blob_id: Vec<u8>,
        chunk_count: u32,
        readahead_size: u32,
        blob_cache_size: u64,
        compressed_blob_size: u64,
    ) -> (b: Self)
        ensures
            b@ == (blob_id@, chunk_count, readahead_size, blob_cache_size, compressed_blob_size),
    {
        BlobContext { blob_id, chunk_count, readahead_size, blob_cache_size, compressed_blob_size }
    }
}

/// What the registration of a chunk found.
#[derive(Clone, Copy, Debug, PartialEq, Eq, Structural)]
pub enum DedupOutcome {
    /// The content is stored already: the chunk that stands for it, with the blob that
    /// holds it. The caller must use it and write nothing.
    Reused(RafsV5ChunkInfo),
    /// The content is new and the chunk now stands for it.
    Inserted,
}

/// A map from digests to chunks that holds at most one chunk for a digest.
///
/// The chunks are kept in the order in which they came. A hash table finds them again by
/// the first eight bytes of their digests, so that a lookup compares whole digests only
/// among the few that share those bytes.
pub struct ChunkMap {
    entries: Vec<(RafsDigest, RafsV5ChunkInfo)>,
    index: HashMap<u64, Vec<usize>>,
    model: Ghost<Map<RafsDigest, RafsV5ChunkInfo>>,
}

impl View for ChunkMap {
    type V = Map<RafsDigest, RafsV5ChunkInfo>;

    closed spec fn view(&self) -> Map<RafsDigest, RafsV5ChunkInfo> {
        self.model@
    }
}

impl ChunkMap {
    /// No digest stands twice, the entries are what the map says, and the hash table
    /// names every entry under the first bytes of its digest and nothing else. Every map
    /// that this module hands out is well formed, and every operation keeps it so.
    pub closed spec fn wf(&self) -> bool {
        &&& self.model@.dom().finite()
        &&& self.model@.dom().len() == self.entries@.len()
        &&& forall|i: int|
            0 <= i < self.entries@.len() ==> self.model@.contains_key(
                (#[trigger] self.entries@[i]).0,
            ) && self.model@[self.entries@[i].0] == self.entries@[i].1
        &&& forall|d: RafsDigest|
            self.model@.contains_key(d) ==> exists|i: int|
                0 <= i < self.entries@.len() && (#[trigger] self.entries@[i]).0 == d
        &&& forall|i: int, j: int|
            0 <= i < j < self.entries@.len() ==> (#[trigger] self.entries@[i]).0
                != (#[trigger] self.entries@[j]).0
        &&& forall|i: int|
            0 <= i < self.entries@.len() ==> self.index@.contains_key(
                (#[trigger] self.entries@[i]).0.w0,
            ) && self.index@[self.entries@[i].0.w0]@.contains(i as usize)
        &&& forall|k: u64, j: int|
            self.index@.contains_key(k) && 0 <= j < self.index@[k]@.len() ==> (
            #[trigger] self.index@[k]@[j]) < self.entries@.len()
                && self.entries@[self.index@[k]@[j] as int].0.w0 == k
    }

    /// An empty map.
    pub fn new() -> (m: Self)
        ensures
            m.wf(),
            m@ == Map::<RafsDigest, RafsV5ChunkInfo>::empty(),
    {
        ChunkMap { entries: Vec::new(), index: HashMap::new(), model: Ghost(Map::empty()) }
    }

    /// The number of digests in the map.
    pub fn len(&self) -> (n: usize)
        requires
            self.wf(),
        ensures
            self@.dom().finite(),
            n == self@.dom().len(),
    {
        self.entries.len()
    }

    /// The chunk that stands for `digest`, if the map holds one.
    pub fn get(&self, digest: &RafsDigest) -> (res: Option<RafsV5ChunkInfo>)
        requires
            self.wf(),
        ensures
            res is Some <==> self@.contains_key(*digest),
            res is Some ==> res->0 == self@[*digest],
    {
        let total = self.entries.len();
        let bucket = match self.index.get(&digest.w0) {
            Some(bucket) => bucket,
            None => {
                proof {
                    if self.model@.contains_key(*digest) {
                        let i = choose|i: int|
                            0 <= i < self.entries@.len() && (#[trigger] self.entries@[i]).0
                                == *digest;
                        assert(self.index@.contains_key(self.entries@[i].0.w0));
                    }
                }
                return None;
            },
        };
        let n = bucket.len();
        let mut j: usize = 0;
        while j < n
            invariant
                j <= n,
                n == bucket@.len(),
                total == self.entries@.len(),
                self.wf(),
                self.index@.contains_key(digest.w0),
                *bucket == self.index@[digest.w0],
                forall|t: int| 0 <= t < j ==> self.entries@[bucket@[t] as int].0 != *digest,
            decreases n - j,
        {
            let pos = bucket[j];
            assert(self.index@[digest.w0]@[j as int] == pos);
            if self.entries[pos].0 == *digest {
                return Some(self.entries[pos].1);
            }
            j = j + 1;
        }
        proof {
            if self.model@.contains_key(*digest) {
                let i = choose|i: int|
                    0 <= i < self.entries@.len() && (#[trigger] self.entries@[i]).0 == *digest;
                assert(self.index@[self.entries@[i].0.w0]@.contains(i as usize));
                let t = choose|t: int| 0 <= t < bucket@.len() && bucket@[t] == i as usize;
                assert(self.entries@[bucket@[t] as int].0 != *digest);
            }
        }
        None
    }

    /// Lets `chunk` stand for `digest` where the map holds no chunk for it yet, and
    /// returns the chunk that stood for it where it does. A digest that is in the map
    /// keeps its chunk.
    pub fn insert_if_absent(&mut self, digest: RafsDigest, chunk: RafsV5ChunkInfo) -> (res:
        Option<RafsV5ChunkInfo>)
        requires
            old(self).wf(),
        ensures
            final(self).wf(),
            old(self)@.contains_key(digest) ==> res == Some(old(self)@[digest]) && final(self)@
                == old(self)@,
            !old(self)@.contains_key(digest) ==> res is None && final(self)@ == old(self)@.insert(
                digest,
                chunk,
            ),
    {
        match self.get(&digest) {
            Some(existing) => Some(existing),
            None => {
                let ghost before = self.entries@;
                let ghost model = self.model@;
                let ghost index = self.index@;
                let key = digest.w0;
                let pos = self.entries.len();
                self.entries.push((digest, chunk));
                let mut bucket = match self.index.remove(&key) {
                    Some(bucket) => bucket,
                    None => Vec::new(),
                };
                let ghost old_bucket = bucket@;
                bucket.push(pos);
                let ghost new_bucket = bucket@;
                self.index.insert(key, bucket);
                proof {
                    self.model@ = model.insert(digest, chunk);
                    assert(index.contains_key(key) ==> old_bucket == index[key]@);
                    assert(!index.contains_key(key) ==> old_bucket.len() == 0);
                    assert(self.index@.contains_key(key) && self.index@[key]@ == new_bucket);
                    assert forall|k: u64| k != key && index.contains_key(k) implies self.index@.contains_key(
                        k,
                    ) && self.index@[k] == index[k] by {}
                    assert forall|d: RafsDigest| self.model@.contains_key(d) implies exists|i: int|
                        0 <= i < self.entries@.len() && (#[trigger] self.entries@[i]).0 == d by {
                        if d == digest {
                            assert(self.entries@[before.len() as int].0 == d);
                        } else {
                            let i = choose|i: int|
                                0 <= i < before.len() && (#[trigger] before[i]).0 == d;
                            assert(self.entries@[i].0 == d);
                        }
                    }
                    assert forall|i: int, j: int|
                        0 <= i < j < self.entries@.len() implies (#[trigger] self.entries@[i]).0
                        != (#[trigger] self.entries@[j]).0 by {
                        if j == before.len() {
                            assert(before[i].0 != digest);
                        } else {
                            assert(before[i].0 != before[j].0);
                        }
                    }
                    assert forall|i: int| 0 <= i < self.entries@.len() implies self.model@.contains_key(
                        (#[trigger] self.entries@[i]).0,
                    ) && self.model@[self.entries@[i].0] == self.entries@[i].1 by {
                        if i < before.len() {
                            assert(before[i].0 != digest);
                        }
                    }
                    assert forall|i: int| 0 <= i < self.entries@.len() implies self.index@.contains_key(
                        (#[trigger] self.entries@[i]).0.w0,
                    ) && self.index@[self.entries@[i].0.w0]@.contains(i as usize) by {
                        if i < before.len() {
                            let k = before[i].0.w0;
                            assert(index.contains_key(k) && index[k]@.contains(i as usize));
                            if k == key {
                                let t = choose|t: int|
                                    0 <= t < old_bucket.len() && old_bucket[t] == i as usize;
                                assert(new_bucket[t] == i as usize);
                            }
                        } else {
                            assert(new_bucket[new_bucket.len() - 1] == i as usize);
                        }
                    }
                    assert forall|k: u64, j: int|
                        self.index@.contains_key(k) && 0 <= j < self.index@[k]@.len() implies (
                    #[trigger] self.index@[k]@[j]) < self.entries@.len()
                        && self.entries@[self.index@[k]@[j] as int].0.w0 == k by {
                        if k == key {
                            if j < old_bucket.len() {
                                assert(index[k]@[j] == new_bucket[j]);
                                assert(index[k]@[j] < before.len());
                            }
                        } else {
                            assert(index.contains_key(k));
                            assert(index[k]@[j] < before.len());
                        }
                    }
                }
                None
            },
        }
    }
}

/// What the registration of `chunk` under `digest` makes of the map `m`, and what it
/// finds.
pub open spec fn registered(
    m: Map<RafsDigest, RafsV5ChunkInfo>,
    digest: RafsDigest,
    chunk: RafsV5ChunkInfo,
) -> (Map<RafsDigest, RafsV5ChunkInfo>, DedupOutcome) {
    if m.contains_key(digest) {
        (m, DedupOutcome::Reused(m[digest]))
    } else {
        (m.insert(digest, chunk), DedupOutcome::Inserted)
    }
}

/// The chunk `chunk` as it is stored for the blob with index `blob_index`.
pub open spec fn owned_by(chunk: RafsV5ChunkInfo, blob_index: u32) -> RafsV5ChunkInfo {
    RafsV5ChunkInfo { blob_index, ..chunk }
}

/// A digest that was registered is reused from then on: a second registration of the
/// same digest, with whatever chunk, finds the chunk that the first one left and changes
/// nothing.
pub proof fn lemma_register_twice_reuses(
    m: Map<RafsDigest, RafsV5ChunkInfo>,
    digest: RafsDigest,
    first: RafsV5ChunkInfo,
    second: RafsV5ChunkInfo,
)
    ensures
        ({
            let once = registered(m, digest, first);
            let twice = registered(once.0, digest, second);
            &&& twice.1 == DedupOutcome::Reused(once.0[digest])
            &&& twice.0 == once.0
            &&& !m.contains_key(digest) ==> once.0[digest] == first
            &&& m.contains_key(digest) ==> once.0[digest] == m[digest]
        }),
{
}

/// A registration never changes what stands for another digest, nor for a digest that
/// was in the map.
pub proof fn lemma_register_keeps_others(
    m: Map<RafsDigest, RafsV5ChunkInfo>,
    digest: RafsDigest,
    chunk: RafsV5ChunkInfo,
    other: RafsDigest,
)
    requires
        m.contains_key(other),
    ensures
        registered(m, digest, chunk).0.contains_key(other),
        registered(m, digest, chunk).0[other] == m[other],
{
}

/// The blobs and the chunks that an image under construction knows of.
pub struct BlobInfo {
    /// The blobs, in the order of the blob table they were taken from.
    pub blobs: Vec<BlobContext>,
    /// The chunk that stands for every digest seen so far.
    pub chunk_map: ChunkMap,
}

impl BlobInfo {
    /// The blob contexts, in order.
    pub open spec fn blobs(&self) -> Seq<(Seq<u8>, u32, u32, u64, u64)> {
        Seq::new(self.blobs@.len(), |i: int| self.blobs@[i]@)
    }

    /// Nothing is known yet.
    pub fn new() -> (b: Self)
        ensures
            b.chunk_map.wf(),
            b.blobs().len() == 0,
            b.chunk_map@ == Map::<RafsDigest, RafsV5ChunkInfo>::empty(),
    {
        let b = BlobInfo { blobs: Vec::new(), chunk_map: ChunkMap::new() };
        assert(b.blobs() =~= Seq::empty());
        b
    }

    /// Replaces the blob contexts by those of the entries of `blob_table`, in table
    /// order. The chunk map is not touched.
    pub fn from_blob_table(&mut self, blob_table: &RafsV5BlobTable)
        ensures
            final(self).chunk_map == old(self).chunk_map,
            final(self).blobs().len() == blob_table.entries@.len(),
            forall|k: int|
                0 <= k < blob_table.entries@.len() ==> #[trigger] final(self).blobs()[k] == (
                    blob_table.entries@[k].blob_id@,
                    blob_table.entries@[k].chunk_count,
                    blob_table.entries@[k].readahead_size,
                    blob_table.entries@[k].blob_cache_size,
                    blob_table.entries@[k].compressed_blob_size,
                ),
    {
        let n = blob_table.entries.len();
        let mut blobs: Vec<BlobContext> = Vec::new();
        let mut k: usize = 0;
        while k < n
            invariant
                k <= n,
                n == blob_table.entries@.len(),
                blobs@.len() == k,
                forall|j: int|
                    0 <= j < k ==> (#[trigger] blobs@[j])@ == (
                        blob_table.entries@[j].blob_id@,
                        blob_table.entries@[j].chunk_count,
                        blob_table.entries@[j].readahead_size,
                        blob_table.entries@[j].blob_cache_size,
                        blob_table.entries@[j].compressed_blob_size,
                    ),
            decreases n - k,
        {
            let entry = &blob_table.entries[k];
            let id = copy_range(entry.blob_id.as_slice(), 0, entry.blob_id.len());
            assert(id@ =~= entry.blob_id@);
            blobs.push(
                BlobContext::from(
                    id,
                    entry.chunk_count,
                    entry.readahead_size,
                    entry.blob_cache_size,
                    entry.compressed_blob_size,
                ),
            );
            k = k + 1;
        }
        self.blobs = blobs;
    }

    /// The identifiers of the blobs, in order.
    pub fn blob_ids(&self) -> (ids: Vec<Vec<u8>>)
        ensures
            ids@.len() == self.blobs().len(),
            forall|k: int| 0 <= k < ids@.len() ==> (#[trigger] ids@[k])@ == self.blobs()[k].0,
    {
        let n = self.blobs.len();
        let mut ids: Vec<Vec<u8>> = Vec::new();
        let mut k: usize = 0;
        while k < n
            invariant
                k <= n,
                n == self.blobs@.len(),
                ids@.len() == k,
                forall|j: int| 0 <= j < k ==> (#[trigger] ids@[j])@ == self.blobs@[j].blob_id@,
            decreases n - k,
        {
            let b = &self.blobs[k];
            let id = copy_range(b.blob_id.as_slice(), 0, b.blob_id.len());
            assert(id@ =~= b.blob_id@);
            ids.push(id);
            k = k + 1;
        }
        ids
    }

    /// The number of blobs and the number of digests in the chunk map.
    pub fn sizes(&self) -> (n: (usize, usize))
        requires
            self.chunk_map.wf(),
        ensures
            n.0 == self.blobs().len(),
            self.chunk_map@.dom().finite(),
            n.1 == self.chunk_map@.dom().len(),
    {
        (self.blobs.len(), self.chunk_map.len())
    }

    /// Registers the content with the digest `digest`, which `chunk` would store in the
    /// blob with index `blob_index`. Where the digest is in the map, the chunk that
    /// stands for it is returned and nothing changes. Where it is not, `chunk` with that
    /// blob index stands for it from now on.
    pub fn register(&mut self, digest: RafsDigest, chunk: RafsV5ChunkInfo, blob_index: u32) -> (res:
        DedupOutcome)
        requires
            old(self).chunk_map.wf(),
        ensures
            final(self).chunk_map.wf(),
            (final(self).chunk_map@, res) == registered(
                old(self).chunk_map@,
                digest,
                owned_by(chunk, blob_index),
            ),
            final(self).blobs() == old(self).blobs(),
    {
        let stored = RafsV5ChunkInfo { blob_index, ..chunk };
        match self.chunk_map.insert_if_absent(digest, stored) {
            Some(existing) => DedupOutcome::Reused(existing),
            None => DedupOutcome::Inserted,
        }
    }
}

} // verus!
