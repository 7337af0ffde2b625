//! Gossip topic identifiers, derived from a human-readable name.

use crate::digest::{sha256_of, ContentHash};
use vstd::prelude::*;
use vstd::string::StringSliceAdditionalSpecFns;

verus! {

/// The name of the topic on which registry records are exchanged.
pub const REGISTRY_TOPIC_NAME: &'static str = "did_profile_registry";

/// The identifier of the topic named `name`: the digest of its UTF-8 bytes,
/// so every node derives the same one without coordination.
pub fn topic_id(name: &str) -> (r: ContentHash)
    ensures
        r@ == sha256_of(name.spec_bytes()),
{
    ContentHash::of(name.as_bytes())
}

/// The identifier of the registry topic.
pub fn registry_topic() -> (r: ContentHash)
    ensures
        r@ == sha256_of(REGISTRY_TOPIC_NAME.spec_bytes()),
{
    topic_id(REGISTRY_TOPIC_NAME)
}

} // verus!
