//! The content-addressed store: blobs kept under the digest of their bytes.

use crate::digest::{sha256_of, ContentHash};
use vstd::prelude::*;

verus! {

/// The store's contents: each digest with the bytes stored under it.
pub type BlobMap = Map<Seq<u8>, Seq<u8>>;

/// Why a read failed.
#[derive(Clone, Copy, Debug, PartialEq, Eq, Structural)]
pub enum BlobError {
    /// No blob with that digest was stored.
    NotFound,
    /// The bytes read back do not have the digest they were stored under.
    Corrupt,
}

/// What a read under `hash` that found `found` returns: the bytes when their
/// digest is `hash`, else `Corrupt`.
pub open spec fn checked(hash: Seq<u8>, found: Seq<u8>) -> Result<Seq<u8>, BlobError> {
    if sha256_of(found) == hash {
        Ok(found)
    } else {
        Err(BlobError::Corrupt)
    }
}

/// `m` after `data` is put into it: stored under its digest unless that
/// digest is already present.
pub open spec fn stored(m: BlobMap, data: Seq<u8>) -> BlobMap {
    if m.contains_key(sha256_of(data)) {
        m
    } else {
        m.insert(sha256_of(data), data)
    }
}

/// Checks bytes read back for `hash` against it, so that a storage fault is
/// reported and never passed on as content.
pub fn check_blob(hash: &ContentHash, found: Vec<u8>) -> (r: Result<Vec<u8>, BlobError>)
    ensures
        match r {
            Ok(v) => checked(hash@, found@) == Ok::<Seq<u8>, BlobError>(v@),
            Err(e) => checked(hash@, found@) == Err::<Seq<u8>, BlobError>(e),
        },
{
    let actual = ContentHash::of(found.as_slice());
    if actual.same(hash) {
        Ok(found)
    } else {
        Err(BlobError::Corrupt)
    }
}

struct StoredBlob {
    hash: ContentHash,
    bytes: Vec<u8>,
}

/// An in-memory content-addressed store. Blobs are never changed or removed.
pub struct BlobStore {
    blobs: Vec<StoredBlob>,
    contents: Ghost<BlobMap>,
}

impl View for BlobStore {
    type V = BlobMap;

    closed spec fn view(&self) -> BlobMap {
        self.contents@
    }
}

impl BlobStore {
    /// One entry per digest, each under the digest of its bytes, and the
    /// entries are exactly the contents.
    pub closed spec fn wf(&self) -> bool {
        &&& forall|i: int, j: int|
            0 <= i < j < self.blobs@.len() ==> self.blobs@[i].hash@ != self.blobs@[j].hash@
        &&& forall|i: int|
            0 <= i < self.blobs@.len() ==> (#[trigger] self.blobs@[i]).hash@ == sha256_of(
                self.blobs@[i].bytes@,
            )
        &&& forall|i: int|
            0 <= i < self.blobs@.len() ==> #[trigger] self.contents@.contains_key(
                self.blobs@[i].hash@,
            ) && self.contents@[self.blobs@[i].hash@] == self.blobs@[i].bytes@
        &&& forall|k: Seq<u8>|
            #[trigger] self.contents@.contains_key(k) ==> exists|i: int|
                0 <= i < self.blobs@.len() && self.blobs@[i].hash@ == k
    }

    /// Every blob held is stored under the digest of its bytes.
    pub proof fn lemma_bound(&self, k: Seq<u8>)
        requires
            self.wf(),
            self@.contains_key(k),
        ensures
            sha256_of(self@[k]) == k,
    {
        let i = choose|i: int| 0 <= i < self.blobs@.len() && self.blobs@[i].hash@ == k;
        assert(self.contents@.contains_key(self.blobs@[i].hash@));
    }

    /// An empty store.
    pub fn new() -> (r: BlobStore)
        ensures
            r.wf(),
            r@ == BlobMap::empty(),
    {
        BlobStore { blobs: Vec::new(), contents: Ghost(Map::empty()) }
    }

    fn find(&self, hash: &ContentHash) -> (r: Option<usize>)
        requires
            self.wf(),
        ensures
            match r {
                Some(i) => i < self.blobs@.len() && self.blobs@[i as int].hash@ == hash@,
                None => !self@.contains_key(hash@),
            },
    {
        let mut i: usize = 0;
        while i < self.blobs.len()
            invariant
                self.wf(),
                0 <= i <= self.blobs@.len(),
                forall|j: int| 0 <= j < i ==> self.blobs@[j].hash@ != hash@,
            decreases self.blobs@.len() - i,
        {
            if self.blobs[i].hash.same(hash) {
                return Some(i);
            }
            i = i + 1;
        }
        None
    }

    /// Stores `data` under its digest, unless a blob is already stored there,
    /// and returns the digest.
    pub fn put(&mut self, data: Vec<u8>) -> (r: ContentHash)
        requires
            old(self).wf(),
        ensures
            final(self).wf(),
            r@ == sha256_of(data@),
            final(self)@ == stored(old(self)@, data@),
    {
        let hash = ContentHash::of(data.as_slice());
        match self.find(&hash) {
            Some(_) => hash,
            None => {
                let ghost key = hash@;
                let ghost bytes = data@;
                self.blobs.push(StoredBlob { hash, bytes: data });
                self.contents = Ghost(self.contents@.insert(key, bytes));
                proof {
                    let n = self.blobs@.len() - 1;
                    assert forall|k: Seq<u8>| #[trigger] self.contents@.contains_key(k) implies exists|i: int|
                        0 <= i < self.blobs@.len() && self.blobs@[i].hash@ == k by {
                        if k != key {
                            assert(old(self).contents@.contains_key(k));
                            let i = choose|i: int|
                                0 <= i < old(self).blobs@.len() && old(self).blobs@[i].hash@ == k;
                            assert(self.blobs@[i] == old(self).blobs@[i]);
                        } else {
                            assert(self.blobs@[n].hash@ == k);
                        }
                    }
                    assert forall|i: int| 0 <= i < self.blobs@.len() implies #[trigger] self.contents@.contains_key(
                        self.blobs@[i].hash@,
                    ) && self.contents@[self.blobs@[i].hash@] == self.blobs@[i].bytes@ by {
                        if i < n {
                            assert(self.blobs@[i] == old(self).blobs@[i]);
                            assert(old(self).contents@.contains_key(old(self).blobs@[i].hash@));
                        }
                    }
                    assert forall|i: int| 0 <= i < self.blobs@.len() implies (#[trigger] self.blobs@[i]).hash@ == sha256_of(
                        self.blobs@[i].bytes@,
                    ) by {
                        if i < n {
                            assert(self.blobs@[i] == old(self).blobs@[i]);
                        }
                    }
                    assert forall|i: int| 0 <= i < n implies self.blobs@[i].hash@ != key by {
                        assert(self.blobs@[i] == old(self).blobs@[i]);
                        assert(old(self).contents@.contains_key(old(self).blobs@[i].hash@));
                    }
                }
                hash
            },
        }
    }

    /// The bytes stored under `hash`, as a copy, after checking them against
    /// it.
    pub fn get(&self, hash: &ContentHash) -> (r: Result<Vec<u8>, BlobError>)
        requires
            self.wf(),
        ensures
            match r {
                Ok(v) => self@.contains_key(hash@) && v@ == self@[hash@],
                Err(e) => !self@.contains_key(hash@) && e == BlobError::NotFound,
            },
    {
        match self.find(hash) {
            None => Err(BlobError::NotFound),
            Some(i) => {
                assert(self@.contains_key(self.blobs@[i as int].hash@));
                let copy = self.blobs[i].bytes.clone();
                check_blob(hash, copy)
            },
        }
    }
}

/// Reading back what was put returns the same bytes, unless a blob with a
/// colliding digest was stored before.
pub proof fn lemma_round_trip(m: BlobMap, data: Seq<u8>)
    requires
        m.contains_key(sha256_of(data)) ==> m[sha256_of(data)] == data,
    ensures
        stored(m, data).contains_key(sha256_of(data)),
        stored(m, data)[sha256_of(data)] == data,
{
}

/// Putting the same bytes twice gives the same digest and stores them once.
pub proof fn lemma_dedup(m: BlobMap, data: Seq<u8>)
    requires
        m.dom().finite(),
    ensures
        stored(stored(m, data), data) == stored(m, data),
        m.contains_key(sha256_of(data)) ==> stored(m, data) == m,
        !m.contains_key(sha256_of(data)) ==> stored(m, data).len() == m.len() + 1,
{
}

/// A read returns bytes only when they have the digest asked for; bytes that
/// do not are reported as `Corrupt`, never handed out.
pub proof fn lemma_corruption_detected(hash: Seq<u8>, found: Seq<u8>)
    ensures
        sha256_of(found) != hash ==> checked(hash, found) == Err::<Seq<u8>, BlobError>(
            BlobError::Corrupt,
        ),
        sha256_of(found) == hash ==> checked(hash, found) == Ok::<Seq<u8>, BlobError>(found),
{
}

} // verus!
