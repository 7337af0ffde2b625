//! The replicated registry: a name-to-record cache merged last-writer-wins.

use crate::record::{well_formed, ProfileEvent, ProfileView};
use vstd::prelude::*;

verus! {

/// The registry's contents: each name with its current record.
pub type RegistryMap = Map<Seq<char>, ProfileView>;

/// Whether `candidate` replaces what `m` holds for its name: it does when the
/// name is new, or when it is strictly newer. A tie keeps the current record.
///
/// The rule trusts the declared `updated_at`: the signature is not checked
/// against the owner, so a peer can supersede any name with a later
/// timestamp. Verifying the signature before merging is a known gap.
pub open spec fn supersedes(m: RegistryMap, candidate: ProfileView) -> bool {
    !m.contains_key(candidate.username) || candidate.updated_at > m[candidate.username].updated_at
}

/// `m` after `candidate` is merged into it.
pub open spec fn merged(m: RegistryMap, candidate: ProfileView) -> RegistryMap {
    if supersedes(m, candidate) {
        m.insert(candidate.username, candidate)
    } else {
        m
    }
}

/// Why a registry operation failed.
#[derive(Clone, Copy, Debug, PartialEq, Eq, Structural)]
pub enum RegistryError {
    /// The record's name is empty.
    InvalidRecord,
    /// No record for the name has been merged.
    NotFound,
}

/// A message received on the registry topic, as far as it could be read.
pub enum GossipPayload {
    /// The message is a record.
    Record(ProfileEvent),
    /// The message is something else; a shared topic may carry it.
    Unrecognized,
}

/// One event of the registry topic's receive stream.
pub enum GossipEvent {
    /// A message from a peer.
    Received(GossipPayload),
    /// The receive buffer overflowed and some messages were dropped.
    Lagged,
    /// A neighbor, by its 32-byte id, joined.
    NeighborUp([u8; 32]),
    /// A neighbor, by its 32-byte id, left.
    NeighborDown([u8; 32]),
    /// A non-fatal error on the stream.
    Error,
}

/// What folding one event into the registry did.
#[derive(Clone, Copy, Debug, PartialEq, Eq, Structural)]
pub enum GossipOutcome {
    /// A received record replaced what was held for its name.
    Merged,
    /// A received record was not newer than what was held.
    Stale,
    /// The message was not a record and was dropped.
    Ignored,
    /// Messages were lost to lag; nothing changed.
    Lagged,
    /// A neighbor came or went; nothing changed.
    Membership,
    /// The stream reported an error; nothing changed.
    Failed,
}

/// The registry's contents after `event`.
pub open spec fn after_event(m: RegistryMap, event: GossipEvent) -> RegistryMap {
    match event {
        GossipEvent::Received(GossipPayload::Record(rec)) => merged(m, rec@),
        _ => m,
    }
}

/// What folding `event` into a registry holding `m` reports.
pub open spec fn outcome_of(m: RegistryMap, event: GossipEvent) -> GossipOutcome {
    match event {
        GossipEvent::Received(GossipPayload::Record(rec)) => if supersedes(m, rec@) {
            GossipOutcome::Merged
        } else {
            GossipOutcome::Stale
        },
        GossipEvent::Received(GossipPayload::Unrecognized) => GossipOutcome::Ignored,
        GossipEvent::Lagged => GossipOutcome::Lagged,
        GossipEvent::NeighborUp(_) => GossipOutcome::Membership,
        GossipEvent::NeighborDown(_) => GossipOutcome::Membership,
        GossipEvent::Error => GossipOutcome::Failed,
    }
}

/// The local name-to-record cache.
pub struct Registry {
    entries: Vec<ProfileEvent>,
    contents: Ghost<RegistryMap>,
}

impl View for Registry {
    type V = RegistryMap;

    closed spec fn view(&self) -> RegistryMap {
        self.contents@
    }
}

impl Registry {
    /// One entry per name, and the entries are exactly the contents.
    pub closed spec fn wf(&self) -> bool {
        &&& forall|i: int, j: int|
            0 <= i < j < self.entries@.len() ==> self.entries@[i].username@
                != self.entries@[j].username@
        &&& forall|i: int|
            0 <= i < self.entries@.len() ==> #[trigger] self.contents@.contains_key(
                self.entries@[i].username@,
            ) && self.contents@[self.entries@[i].username@] == self.entries@[i]@
        &&& forall|k: Seq<char>|
            #[trigger] self.contents@.contains_key(k) ==> exists|i: int|
                0 <= i < self.entries@.len() && self.entries@[i].username@ == k
    }

    /// An empty registry.
    pub fn new() -> (r: Registry)
        ensures
            r.wf(),
            r@ == RegistryMap::empty(),
    {
        Registry { entries: Vec::new(), contents: Ghost(Map::empty()) }
    }

    /// The number of names held.
    pub fn len(&self) -> (r: usize)
        requires
            self.wf(),
        ensures
            r == self@.len(),
    {
        proof {
            self.lemma_len();
        }
        self.entries.len()
    }

    proof fn lemma_len(&self)
        requires
            self.wf(),
        ensures
            self@.len() == self.entries@.len(),
    {
        let names = Seq::new(self.entries@.len(), |i: int| self.entries@[i].username@);
        assert(names.no_duplicates());
        assert forall|k: Seq<char>| names.to_set().contains(k) implies self@.dom().contains(k) by {
            let i = choose|i: int| 0 <= i < names.len() && names[i] == k;
            assert(self.contents@.contains_key(self.entries@[i].username@));
        }
        assert forall|k: Seq<char>| self@.dom().contains(k) implies names.to_set().contains(k) by {
            assert(self.contents@.contains_key(k));
            let i = choose|i: int| 0 <= i < self.entries@.len() && self.entries@[i].username@ == k;
            assert(names[i] == k);
        }
        assert(self@.dom() =~= names.to_set());
        names.unique_seq_to_set();
    }

    /// The position of the entry for `name`, if any.
    fn find(&self, name: &String) -> (r: Option<usize>)
        requires
            self.wf(),
        ensures
            match r {
                Some(i) => i < self.entries@.len() && self.entries@[i as int].username@ == name@,
                None => !self@.contains_key(name@),
            },
    {
        let mut i: usize = 0;
        while i < self.entries.len()
            invariant
                self.wf(),
                0 <= i <= self.entries@.len(),
                forall|j: int| 0 <= j < i ==> self.entries@[j].username@ != name@,
            decreases self.entries@.len() - i,
        {
            if self.entries[i].username == *name {
                return Some(i);
            }
            i = i + 1;
        }
        None
    }

    /// Merges `candidate` into the registry: it replaces the record held for
    /// its name when there is none or when it is strictly newer. Returns
    /// whether it replaced.
    pub fn merge(&mut self, candidate: ProfileEvent) -> (replaced: bool)
        requires
            old(self).wf(),
        ensures
            final(self).wf(),
            final(self)@ == merged(old(self)@, candidate@),
            replaced == supersedes(old(self)@, candidate@),
    {
        let ghost key = candidate@.username;
        match self.find(&candidate.username) {
            None => {
                self.entries.push(candidate);
                self.contents = Ghost(self.contents@.insert(key, self.entries@.last()@));
                proof {
                    let n = self.entries@.len() - 1;
                    assert forall|k: Seq<char>| #[trigger] self.contents@.contains_key(k) implies exists|i: int|
                        0 <= i < self.entries@.len() && self.entries@[i].username@ == k by {
                        if k != key {
                            assert(old(self).contents@.contains_key(k));
                            let i = choose|i: int|
                                0 <= i < old(self).entries@.len() && old(self).entries@[i].username@ == k;
                            assert(self.entries@[i] == old(self).entries@[i]);
                        } else {
                            assert(self.entries@[n].username@ == k);
                        }
                    }
                    assert forall|i: int| 0 <= i < n implies self.entries@[i].username@ != key by {
                        assert(self.entries@[i] == old(self).entries@[i]);
                        assert(old(self).contents@.contains_key(old(self).entries@[i].username@));
                    }
                }
                true
            },
            Some(i) => {
                if candidate.updated_at > self.entries[i].updated_at {
                    self.entries.set(i, candidate);
                    self.contents = Ghost(self.contents@.insert(key, self.entries@[i as int]@));
                    proof {
                        assert forall|k: Seq<char>| #[trigger] self.contents@.contains_key(k) implies exists|j: int|
                            0 <= j < self.entries@.len() && self.entries@[j].username@ == k by {
                            if k != key {
                                assert(old(self).contents@.contains_key(k));
                                let j = choose|j: int|
                                    0 <= j < old(self).entries@.len() && old(self).entries@[j].username@ == k;
                                assert(self.entries@[j] == old(self).entries@[j]);
                            } else {
                                assert(self.entries@[i as int].username@ == k);
                            }
                        }
                        assert forall|a: int, b: int|
                            0 <= a < b < self.entries@.len() implies self.entries@[a].username@
                                != self.entries@[b].username@ by {
                            assert(old(self).entries@[a].username@ != old(self).entries@[b].username@);
                        }
                    }
                    true
                } else {
                    false
                }
            },
        }
    }

    /// Publishes a local record: a record with an empty name is refused,
    /// any other is merged. Returns whether it replaced what was held.
    pub fn publish(&mut self, record: ProfileEvent) -> (r: Result<bool, RegistryError>)
        requires
            old(self).wf(),
        ensures
            final(self).wf(),
            well_formed(record@) ==> r == Ok::<bool, RegistryError>(supersedes(old(self)@, record@))
                && final(self)@ == merged(old(self)@, record@),
            !well_formed(record@) ==> r == Err::<bool, RegistryError>(RegistryError::InvalidRecord)
                && final(self)@ == old(self)@,
    {
        if !record.is_well_formed() {
            return Err(RegistryError::InvalidRecord);
        }
        Ok(self.merge(record))
    }

    /// The current record for `name`, as a copy.
    pub fn lookup(&self, name: &String) -> (r: Result<ProfileEvent, RegistryError>)
        requires
            self.wf(),
        ensures
            match r {
                Ok(rec) => self@.contains_key(name@) && rec@ == self@[name@],
                Err(e) => !self@.contains_key(name@) && e == RegistryError::NotFound,
            },
    {
        match self.find(name) {
            Some(i) => {
                assert(self@.contains_key(self.entries@[i as int].username@));
                Ok(self.entries[i].copy_value())
            },
            None => Err(RegistryError::NotFound),
        }
    }

    /// Folds one event of the registry topic into the registry. A received
    /// record is merged; anything else on the topic leaves the registry as it
    /// was.
    pub fn apply_gossip(&mut self, event: GossipEvent) -> (r: GossipOutcome)
        requires
            old(self).wf(),
        ensures
            final(self).wf(),
            final(self)@ == after_event(old(self)@, event),
            r == outcome_of(old(self)@, event),
    {
        match event {
            GossipEvent::Received(GossipPayload::Record(rec)) => {
                if self.merge(rec) {
                    GossipOutcome::Merged
                } else {
                    GossipOutcome::Stale
                }
            },
            GossipEvent::Received(GossipPayload::Unrecognized) => GossipOutcome::Ignored,
            GossipEvent::Lagged => GossipOutcome::Lagged,
            GossipEvent::NeighborUp(_) => GossipOutcome::Membership,
            GossipEvent::NeighborDown(_) => GossipOutcome::Membership,
            GossipEvent::Error => GossipOutcome::Failed,
        }
    }
}

} // verus!
