//! Per-topic buffers of received messages: bounded rings that drop their
//! oldest message when they overflow.

use crate::hashing::Digest;
use crate::keys::NodeIndex;
use vstd::prelude::*;

verus! {

/// A message as the readers of a topic see it.
#[derive(Clone, Debug, PartialEq, Eq)]
pub struct SharedMessage {
    pub digest: Digest,
    pub origin: NodeIndex,
    pub payload: Vec<u8>,
}

/// A shared message as a mathematical value.
pub struct SharedMessageView {
    pub digest: Digest,
    pub origin: NodeIndex,
    pub payload: Seq<u8>,
}

impl View for SharedMessage {
    type V = SharedMessageView;

    open spec fn view(&self) -> SharedMessageView {
        SharedMessageView { digest: self.digest, origin: self.origin, payload: self.payload@ }
    }
}

/// The values that a sequence of things stands for, one by one.
pub open spec fn views_of<T: View>(items: Seq<T>) -> Seq<T::V> {
    Seq::new(items.len(), |i: int| items[i]@)
}

/// A bounded buffer of messages in the order in which they came in. Every
/// message has a number, counted from zero in that order.
#[derive(Debug)]
pub struct MessageRing {
    pub capacity: usize,
    /// The number that the next message gets.
    pub next_seq: u64,
    pub items: Vec<SharedMessage>,
}

/// A ring as a mathematical value.
pub struct RingView {
    pub capacity: nat,
    pub next_seq: u64,
    pub items: Seq<SharedMessageView>,
}

impl View for MessageRing {
    type V = RingView;

    open spec fn view(&self) -> RingView {
        RingView {
            capacity: self.capacity as nat,
            next_seq: self.next_seq,
            items: views_of(self.items@),
        }
    }
}

impl RingView {
    /// What holds of every ring: it has room for a message, holds no more
    /// than it has room for, and no more than ever came in.
    pub open spec fn wf(self) -> bool {
        &&& self.capacity > 0
        &&& self.items.len() <= self.capacity
        &&& self.items.len() <= self.next_seq
    }

    /// The ring after a message came in: the message is the newest, and the
    /// oldest has left if there was no room. A ring that has numbered as many
    /// messages as there are numbers takes no more.
    pub open spec fn insert(self, m: SharedMessageView) -> RingView {
        if self.next_seq == u64::MAX {
            self
        } else if self.items.len() >= self.capacity {
            RingView {
                items: self.items.drop_first().push(m),
                next_seq: (self.next_seq + 1) as u64,
                ..self
            }
        } else {
            RingView { items: self.items.push(m), next_seq: (self.next_seq + 1) as u64, ..self }
        }
    }

    /// The number of the message at place `k`.
    pub open spec fn seq_at(self, k: int) -> int {
        self.next_seq - self.items.len() + k
    }

    /// The place of the oldest message that a reader who has seen the
    /// messages up to `last_seen` has not seen; the number of messages where
    /// there is none.
    pub open spec fn first_unseen(self, last_seen: Option<u64>) -> int {
        match last_seen {
            None => 0,
            Some(seen) => if seen + 1 <= self.seq_at(0) {
                0
            } else if seen + 1 >= self.next_seq {
                self.items.len() as int
            } else {
                seen + 1 - self.seq_at(0)
            },
        }
    }
}

impl MessageRing {
    /// Makes an empty ring with room for `capacity` messages.
    pub fn new(capacity: usize) -> (ring: MessageRing)
        requires
            capacity > 0,
        ensures
            ring@ == (RingView { capacity: capacity as nat, next_seq: 0, items: Seq::empty() }),
            ring@.wf(),
    {
        let ring = MessageRing { capacity, next_seq: 0, items: Vec::new() };
        assert(ring@.items =~= Seq::empty());
        ring
    }

    /// Tells whether the ring is well formed.
    pub fn is_well_formed(&self) -> (ok: bool)
        ensures
            ok == self@.wf(),
    {
        self.capacity > 0 && self.items.len() <= self.capacity && self.items.len() as u64
            <= self.next_seq
    }

    /// Puts a message into the ring, dropping the oldest one where the ring
    /// is full.
    pub fn insert(&mut self, message: SharedMessage)
        requires
            old(self)@.wf(),
        ensures
            final(self)@ == old(self)@.insert(message@),
            final(self)@.wf(),
    {
        if self.next_seq == u64::MAX {
            return ;
        }
        if self.items.len() >= self.capacity {
            self.items.remove(0);
            self.items.push(message);
            assert(self@.items =~= old(self)@.items.drop_first().push(message@));
        } else {
            self.items.push(message);
            assert(self@.items =~= old(self)@.items.push(message@));
        }
        self.next_seq = self.next_seq + 1;
    }

    /// Gives the oldest message that a reader has not seen yet, with its
    /// number. The reader names the number of the last message that it has
    /// seen, or none.
    pub fn next_after(&self, last_seen: Option<u64>) -> (found: Option<(u64, &SharedMessage)>)
        requires
            self@.wf(),
        ensures
            match found {
                Some((seq, m)) => {
                    let k = self@.first_unseen(last_seen);
                    &&& 0 <= k < self@.items.len()
                    &&& seq == self@.seq_at(k)
                    &&& m@ == self@.items[k]
                },
                None => self@.first_unseen(last_seen) == self@.items.len(),
            },
    {
        let oldest: u64 = self.next_seq - self.items.len() as u64;
        let k: usize = match last_seen {
            None => 0,
            Some(seen) => {
                if seen < oldest {
                    0
                } else if self.next_seq == 0 || seen >= self.next_seq - 1 {
                    self.items.len()
                } else {
                    (seen + 1 - oldest) as usize
                }
            },
        };
        if k < self.items.len() {
            Some((oldest + k as u64, &self.items[k]))
        } else {
            None
        }
    }

    /// The number of messages in the ring.
    pub fn len(&self) -> (n: usize)
        ensures
            n == self@.items.len(),
    {
        self.items.len()
    }
}

} // verus!
