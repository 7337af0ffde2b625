//! The bounded queue of outgoing registry messages, drained by one
//! replication worker, so that back-pressure is visible.

use vstd::prelude::*;

verus! {

/// Why a message was not queued.
#[derive(Clone, Copy, Debug, PartialEq, Eq, Structural)]
pub enum QueueError {
    /// The queue holds as many messages as it may.
    QueueFull,
}

/// A first-in first-out queue of messages with a fixed capacity.
pub struct ReplicationQueue {
    pending: Vec<Vec<u8>>,
    capacity: usize,
}

impl View for ReplicationQueue {
    type V = Seq<Seq<u8>>;

    closed spec fn view(&self) -> Seq<Seq<u8>> {
        self.pending@.map_values(|m: Vec<u8>| m@)
    }
}

impl ReplicationQueue {
    /// The most messages the queue holds at once.
    pub closed spec fn spec_capacity(&self) -> nat {
        self.capacity as nat
    }

    /// Never more messages than the capacity.
    pub closed spec fn wf(&self) -> bool {
        self.pending@.len() <= self.capacity
    }

    /// An empty queue that holds at most `capacity` messages.
    pub fn new(capacity: usize) -> (r: ReplicationQueue)
        ensures
            r.wf(),
            r@ == Seq::<Seq<u8>>::empty(),
            r.spec_capacity() == capacity,
    {
        let r = ReplicationQueue { pending: Vec::new(), capacity };
        assert(r@ =~= Seq::<Seq<u8>>::empty());
        r
    }

    /// The number of messages waiting.
    pub fn len(&self) -> (r: usize)
        ensures
            r == self@.len(),
    {
        self.pending.len()
    }

    /// The capacity.
    pub fn capacity(&self) -> (r: usize)
        ensures
            r == self.spec_capacity(),
    {
        self.capacity
    }

    /// Queues `message` at the back, or reports that the queue is full.
    pub fn enqueue(&mut self, message: Vec<u8>) -> (r: Result<(), QueueError>)
        requires
            old(self).wf(),
        ensures
            final(self).wf(),
            final(self).spec_capacity() == old(self).spec_capacity(),
            old(self)@.len() < old(self).spec_capacity() ==> r == Ok::<(), QueueError>(())
                && final(self)@ == old(self)@.push(message@),
            old(self)@.len() >= old(self).spec_capacity() ==> r == Err::<(), QueueError>(
                QueueError::QueueFull,
            ) && final(self)@ == old(self)@,
    {
        if self.pending.len() >= self.capacity {
            return Err(QueueError::QueueFull);
        }
        self.pending.push(message);
        assert(self@ =~= old(self)@.push(message@));
        Ok(())
    }

    /// Takes the message at the front, if any.
    pub fn dequeue(&mut self) -> (r: Option<Vec<u8>>)
        requires
            old(self).wf(),
        ensures
            final(self).wf(),
            final(self).spec_capacity() == old(self).spec_capacity(),
            old(self)@.len() == 0 ==> r.is_none() && final(self)@ == old(self)@,
            old(self)@.len() > 0 ==> r.is_some() && r.unwrap()@ == old(self)@[0] && final(self)@
                == old(self)@.drop_first(),
    {
        if self.pending.len() == 0 {
            return None;
        }
        let m = self.pending.remove(0);
        assert(self@ =~= old(self)@.drop_first());
        Some(m)
    }
}

} // verus!
