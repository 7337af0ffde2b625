//! A peer-to-peer node's core: a content-addressed blob store, a replicated
//! name registry merged last-writer-wins, the handling of gossip events that
//! feeds it, the bounded queue of outgoing broadcasts, topic identifiers, and
//! the protocol dispatch table of the shared endpoint.

pub mod digest;
pub mod record;
pub mod registry;
pub mod merge_laws;
pub mod blob_store;
pub mod topic;
pub mod router;
pub mod replication;
pub mod node;
pub mod hex;
