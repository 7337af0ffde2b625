//! Content digests: the 256-bit identity of a blob and of a gossip topic.

use sha2::Digest;
use vstd::prelude::*;

verus! {

/// What SHA-256 gives for a byte sequence.
pub uninterp spec fn sha256_of(data: Seq<u8>) -> Seq<u8>;

/// A 256-bit digest. It is only ever derived from content, never chosen.
#[derive(Clone, Copy, Debug)]
pub struct ContentHash {
    pub bytes: [u8; 32],
}

impl View for ContentHash {
    type V = Seq<u8>;

    open spec fn view(&self) -> Seq<u8> {
        self.bytes@
    }
}

/// Relies on sha2::Sha256::digest: the SHA-256 digest of `data`.
#[verifier::external_body]
fn sha256(data: &[u8]) -> (r: ContentHash)
    ensures
        r@ == sha256_of(data@),
{
    let bytes: [u8; 32] = sha2::Sha256::digest(data).into();
    ContentHash { bytes }
}

impl ContentHash {
    /// The digest of `data`.
    pub fn of(data: &[u8]) -> (r: ContentHash)
        ensures
            r@ == sha256_of(data@),
    {
        sha256(data)
    }

    /// The digest as its 32 bytes.
    pub fn as_bytes(&self) -> (r: [u8; 32])
        ensures
            r@ == self@,
    {
        self.bytes
    }

    /// Whether two digests hold the same bytes.
    pub fn same(&self, other: &ContentHash) -> (r: bool)
        ensures
            r == (self@ == other@),
    {
        let mut i: usize = 0;
        while i < 32
            invariant
                0 <= i <= 32,
                self@.len() == 32,
                other@.len() == 32,
                forall|j: int| 0 <= j < i ==> self@[j] == other@[j],
            decreases 32 - i,
        {
            if self.bytes[i] != other.bytes[i] {
                return false;
            }
            i = i + 1;
        }
        assert(self@ =~= other@);
        true
    }
}

impl PartialEq for ContentHash {
    fn eq(&self, other: &ContentHash) -> (r: bool) {
        self.same(other)
    }
}

impl vstd::std_specs::cmp::PartialEqSpecImpl for ContentHash {
    open spec fn obeys_eq_spec() -> bool {
        true
    }

    open spec fn eq_spec(&self, other: &ContentHash) -> bool {
        self@ == other@
    }
}

impl Eq for ContentHash {
}

} // verus!
