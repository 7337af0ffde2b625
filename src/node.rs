//! One participant: its registry, its outgoing replication queue, and where
//! it stands with the registry topic.

use crate::record::{well_formed, ProfileEvent};
use crate::registry::{
    after_event, merged, outcome_of, supersedes, GossipEvent, GossipOutcome, Registry, RegistryError,
    RegistryMap,
};
use crate::replication::{QueueError, ReplicationQueue};
use vstd::prelude::*;

verus! {

/// What became of the broadcast of a published record.
#[derive(Clone, Copy, Debug, PartialEq, Eq, Structural)]
pub enum Replication {
    /// The message waits for the replication worker.
    Queued,
    /// The queue was full; the message was dropped.
    QueueFull,
    /// The join to the topic failed; nothing is replicated.
    Offline,
}

/// What a successful local publish did.
#[derive(Clone, Copy, Debug, PartialEq, Eq, Structural)]
pub struct PublishReport {
    /// Whether the record replaced what was held for its name.
    pub replaced: bool,
    /// What became of its broadcast.
    pub replication: Replication,
}

/// Where the node stands with the registry topic.
#[derive(Clone, Copy, Debug, PartialEq, Eq, Structural)]
pub enum TopicState {
    /// The join has not completed yet; broadcasts wait in the queue.
    Joining,
    /// The node is a member of the topic.
    Joined,
    /// The join failed; nothing is replicated.
    Failed,
}

/// A node's replicated state.
pub struct Node {
    registry: Registry,
    outbox: ReplicationQueue,
    topic: TopicState,
}

impl Node {
    /// The registry and the queue are each well formed.
    pub closed spec fn wf(&self) -> bool {
        self.registry.wf() && self.outbox.wf()
    }

    /// The registry's contents.
    pub closed spec fn registry_view(&self) -> RegistryMap {
        self.registry@
    }

    /// The messages waiting to be broadcast.
    pub closed spec fn outbox_view(&self) -> Seq<Seq<u8>> {
        self.outbox@
    }

    /// The capacity of the outgoing queue.
    pub closed spec fn outbox_capacity(&self) -> nat {
        self.outbox.spec_capacity()
    }

    /// Where the node stands with the registry topic.
    pub closed spec fn spec_topic(&self) -> TopicState {
        self.topic
    }

    /// A node with an empty registry, still joining, whose outgoing queue
    /// holds at most `capacity` messages.
    pub fn new(capacity: usize) -> (r: Node)
        ensures
            r.wf(),
            r.registry_view() == RegistryMap::empty(),
            r.outbox_view() == Seq::<Seq<u8>>::empty(),
            r.outbox_capacity() == capacity,
            r.spec_topic() == TopicState::Joining,
    {
        Node { registry: Registry::new(), outbox: ReplicationQueue::new(capacity), topic: TopicState::Joining }
    }

    /// Where the node stands with the registry topic.
    pub fn topic_state(&self) -> (r: TopicState)
        ensures
            r == self.spec_topic(),
    {
        self.topic
    }

    /// Records the outcome of joining the registry topic. A failed join
    /// leaves the registry and the queue as they were.
    pub fn set_joined(&mut self, joined: bool)
        requires
            old(self).wf(),
        ensures
            final(self).wf(),
            final(self).spec_topic() == if joined {
                TopicState::Joined
            } else {
                TopicState::Failed
            },
            final(self).registry_view() == old(self).registry_view(),
            final(self).outbox_view() == old(self).outbox_view(),
            final(self).outbox_capacity() == old(self).outbox_capacity(),
    {
        self.topic = if joined {
            TopicState::Joined
        } else {
            TopicState::Failed
        };
    }

    /// Publishes a local record and queues `message`, its serialized form,
    /// for broadcast unless the join has failed. The registry is updated
    /// whether or not the broadcast can be queued.
    pub fn publish(&mut self, record: ProfileEvent, message: Vec<u8>) -> (r: Result<PublishReport, RegistryError>)
        requires
            old(self).wf(),
        ensures
            final(self).wf(),
            final(self).spec_topic() == old(self).spec_topic(),
            final(self).outbox_capacity() == old(self).outbox_capacity(),
            !well_formed(record@) ==> r == Err::<PublishReport, RegistryError>(RegistryError::InvalidRecord)
                && final(self).registry_view() == old(self).registry_view()
                && final(self).outbox_view() == old(self).outbox_view(),
            well_formed(record@) ==> final(self).registry_view() == merged(old(self).registry_view(), record@)
                && r is Ok && r->Ok_0.replaced == supersedes(old(self).registry_view(), record@),
            well_formed(record@) && old(self).spec_topic() == TopicState::Failed ==> r->Ok_0.replication == Replication::Offline
                && final(self).outbox_view() == old(self).outbox_view(),
            well_formed(record@) && old(self).spec_topic() != TopicState::Failed && old(self).outbox_view().len()
                < old(self).outbox_capacity() ==> r->Ok_0.replication == Replication::Queued
                && final(self).outbox_view() == old(self).outbox_view().push(message@),
            well_formed(record@) && old(self).spec_topic() != TopicState::Failed && old(self).outbox_view().len()
                >= old(self).outbox_capacity() ==> r->Ok_0.replication == Replication::QueueFull
                && final(self).outbox_view() == old(self).outbox_view(),
    {
        let replaced = match self.registry.publish(record) {
            Ok(b) => b,
            Err(e) => {
                return Err(e);
            },
        };
        if self.topic == TopicState::Failed {
            return Ok(PublishReport { replaced, replication: Replication::Offline });
        }
        let replication = match self.outbox.enqueue(message) {
            Ok(()) => Replication::Queued,
            Err(QueueError::QueueFull) => Replication::QueueFull,
        };
        Ok(PublishReport { replaced, replication })
    }

    /// The current record for `name`, as a copy.
    pub fn lookup(&self, name: &String) -> (r: Result<ProfileEvent, RegistryError>)
        requires
            self.wf(),
        ensures
            match r {
                Ok(rec) => self.registry_view().contains_key(name@) && rec@ == self.registry_view()[name@],
                Err(e) => !self.registry_view().contains_key(name@) && e == RegistryError::NotFound,
            },
    {
        self.registry.lookup(name)
    }

    /// Folds one event of the registry topic into the registry.
    pub fn on_gossip(&mut self, event: GossipEvent) -> (r: GossipOutcome)
        requires
            old(self).wf(),
        ensures
            final(self).wf(),
            final(self).registry_view() == after_event(old(self).registry_view(), event),
            r == outcome_of(old(self).registry_view(), event),
            final(self).outbox_view() == old(self).outbox_view(),
            final(self).outbox_capacity() == old(self).outbox_capacity(),
            final(self).spec_topic() == old(self).spec_topic(),
    {
        self.registry.apply_gossip(event)
    }

    /// The next message for the replication worker to broadcast, if any.
    pub fn next_outgoing(&mut self) -> (r: Option<Vec<u8>>)
        requires
            old(self).wf(),
        ensures
            final(self).wf(),
            final(self).registry_view() == old(self).registry_view(),
            final(self).spec_topic() == old(self).spec_topic(),
            final(self).outbox_capacity() == old(self).outbox_capacity(),
            old(self).outbox_view().len() == 0 ==> r.is_none() && final(self).outbox_view()
                == old(self).outbox_view(),
            old(self).outbox_view().len() > 0 ==> r.is_some() && r.unwrap()@ == old(self).outbox_view()[0]
                && final(self).outbox_view() == old(self).outbox_view().drop_first(),
    {
        self.outbox.dequeue()
    }
}

} // verus!
