//! The interner: short names for digests. A digest that was seen gets a
//! 16-bit id, and the ids of old digests are given out again once every id is
//! taken.

use crate::hashing::{digest_eq, Digest};
use vstd::prelude::*;

verus! {

/// A table from ids to digests.
#[derive(Debug)]
pub struct Interner {
    /// Number of ids.
    pub capacity: u16,
    /// The id that is given out next once every id is taken.
    pub next: u16,
    /// The digest of each id that is taken.
    pub entries: Vec<Digest>,
}

/// An interner as a mathematical value.
pub struct InternerView {
    pub capacity: u16,
    pub next: u16,
    pub entries: Seq<Digest>,
}

impl View for Interner {
    type V = InternerView;

    open spec fn view(&self) -> InternerView {
        InternerView { capacity: self.capacity, next: self.next, entries: self.entries@ }
    }
}

/// The first id at or after `from` that stands for `digest`.
pub open spec fn find_digest_from(entries: Seq<Digest>, digest: Digest, from: int) -> Option<int>
    decreases entries.len() - from,
{
    if from < 0 || from >= entries.len() {
        None
    } else if entries[from] == digest {
        Some(from)
    } else {
        find_digest_from(entries, digest, from + 1)
    }
}

impl InternerView {
    /// What holds of every interner: no more ids are taken than there are,
    /// and the id that is given out next is one of them.
    pub open spec fn wf(self) -> bool {
        &&& self.entries.len() <= self.capacity
        &&& self.capacity > 0 ==> self.next < self.capacity
    }

    /// The digest that an id stands for.
    pub open spec fn get(self, id: u16) -> Option<Digest> {
        if id < self.entries.len() {
            Some(self.entries[id as int])
        } else {
            None
        }
    }

    /// The id of a digest and the interner after the digest was interned. A
    /// digest that has an id keeps it. A new digest gets the next free id,
    /// or, where none is free, the id that is next in turn, which then no
    /// longer stands for its old digest. An interner without ids gives none.
    pub open spec fn insert(self, digest: Digest) -> (Option<u16>, InternerView) {
        match find_digest_from(self.entries, digest, 0) {
            Some(i) => (Some(i as u16), self),
            None => if self.entries.len() < self.capacity {
                (
                    Some(self.entries.len() as u16),
                    InternerView { entries: self.entries.push(digest), ..self },
                )
            } else if self.capacity == 0 {
                (None, self)
            } else {
                (
                    Some(self.next),
                    InternerView {
                        entries: self.entries.update(self.next as int, digest),
                        next: if self.next + 1 == self.capacity {
                            0
                        } else {
                            (self.next + 1) as u16
                        },
                        ..self
                    },
                )
            },
        }
    }
}

/// What a search finds stands for the digest, and nothing before it does.
pub proof fn lemma_find_digest(entries: Seq<Digest>, digest: Digest, from: int)
    requires
        0 <= from,
    ensures
        match find_digest_from(entries, digest, from) {
            Some(i) => from <= i < entries.len() && entries[i] == digest,
            None => forall|k: int| from <= k < entries.len() ==> entries[k] != digest,
        },
    decreases entries.len() - from,
{
    if from < entries.len() && entries[from] != digest {
        lemma_find_digest(entries, digest, from + 1);
    }
}

/// A digest that was interned is what its id stands for.
pub proof fn lemma_interned_is_found(v: InternerView, digest: Digest)
    requires
        v.wf(),
    ensures
        v.insert(digest).1.wf(),
        v.insert(digest).0 matches Some(id) ==> v.insert(digest).1.get(id) == Some(digest),
        v.insert(digest).0 is None <==> v.capacity == 0,
{
    lemma_find_digest(v.entries, digest, 0);
}

impl Interner {
    /// Makes an interner with `capacity` ids, none of them taken.
    pub fn new(capacity: u16) -> (interner: Interner)
        ensures
            interner@ == (InternerView { capacity, next: 0, entries: Seq::empty() }),
            interner@.wf(),
    {
        Interner { capacity, next: 0, entries: Vec::new() }
    }

    /// Looks up the digest that an id stands for.
    pub fn get(&self, id: u16) -> (digest: Option<Digest>)
        ensures
            digest == self@.get(id),
    {
        if (id as usize) < self.entries.len() {
            Some(self.entries[id as usize])
        } else {
            None
        }
    }

    /// Gives a digest its id.
    pub fn insert(&mut self, digest: &Digest) -> (id: Option<u16>)
        requires
            old(self)@.wf(),
        ensures
            (id, final(self)@) == old(self)@.insert(*digest),
            final(self)@.wf(),
    {
        let mut i: usize = 0;
        while i < self.entries.len()
            invariant
                i <= self.entries.len(),
                self@ == old(self)@,
                self@.wf(),
                find_digest_from(self.entries@, *digest, 0) == find_digest_from(
                    self.entries@,
                    *digest,
                    i as int,
                ),
            decreases self.entries.len() - i,
        {
            if digest_eq(&self.entries[i], digest) {
                return Some(i as u16);
            }
            i += 1;
        }
        if self.entries.len() < self.capacity as usize {
            let id = self.entries.len() as u16;
            self.entries.push(*digest);
            Some(id)
        } else if self.capacity == 0 {
            None
        } else {
            let id = self.next;
            self.entries.set(id as usize, *digest);
            self.next = if id + 1 == self.capacity {
                0
            } else {
                id + 1
            };
            Some(id)
        }
    }
}

} // verus!
