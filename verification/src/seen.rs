//! The database of messages that a node has seen of late, by their digests.

use crate::frame::{Message, MessageView};
use crate::hashing::{digest_eq, Digest};
use crate::ring::views_of;
use crate::sums::copy_vec;
use vstd::prelude::*;

verus! {

/// A message that was seen.
#[derive(Clone, Debug, PartialEq, Eq)]
pub struct SeenEntry {
    pub digest: Digest,
    /// When the message was seen, in milliseconds.
    pub seen_at: u64,
    pub message: Message,
}

/// A seen message as a mathematical value.
pub struct SeenEntryView {
    pub digest: Digest,
    pub seen_at: u64,
    pub message: MessageView,
}

impl View for SeenEntry {
    type V = SeenEntryView;

    open spec fn view(&self) -> SeenEntryView {
        SeenEntryView { digest: self.digest, seen_at: self.seen_at, message: self.message@ }
    }
}

/// The messages that were seen within the last `ttl_ms` milliseconds, oldest
/// first.
#[derive(Debug)]
pub struct Database {
    pub ttl_ms: u64,
    pub entries: Vec<SeenEntry>,
}

/// The database as a mathematical value.
pub struct DatabaseView {
    pub ttl_ms: u64,
    pub entries: Seq<SeenEntryView>,
}

impl View for Database {
    type V = DatabaseView;

    open spec fn view(&self) -> DatabaseView {
        DatabaseView { ttl_ms: self.ttl_ms, entries: views_of(self.entries@) }
    }
}

/// The first place at or after `from` of a message with this digest.
pub open spec fn find_seen_from(entries: Seq<SeenEntryView>, digest: Digest, from: int) -> Option<
    int,
>
    decreases entries.len() - from,
{
    if from < 0 || from >= entries.len() {
        None
    } else if entries[from].digest == digest {
        Some(from)
    } else {
        find_seen_from(entries, digest, from + 1)
    }
}

/// Whether a message is out of the window at the time `now`.
pub open spec fn expired(entry: SeenEntryView, ttl_ms: u64, now: u64) -> bool {
    entry.seen_at + ttl_ms < now
}

/// Those of the first `upto` messages that are still in the window, in
/// their order.
pub open spec fn unexpired(entries: Seq<SeenEntryView>, ttl_ms: u64, now: u64, upto: int) -> Seq<
    SeenEntryView,
>
    decreases upto,
{
    if upto <= 0 {
        Seq::empty()
    } else if expired(entries[upto - 1], ttl_ms, now) {
        unexpired(entries, ttl_ms, now, upto - 1)
    } else {
        unexpired(entries, ttl_ms, now, upto - 1).push(entries[upto - 1])
    }
}

impl DatabaseView {
    /// Whether a message with this digest was seen.
    pub open spec fn holds(self, digest: Digest) -> bool {
        find_seen_from(self.entries, digest, 0) is Some
    }

    /// The message with this digest.
    pub open spec fn message(self, digest: Digest) -> Option<MessageView> {
        match find_seen_from(self.entries, digest, 0) {
            Some(i) => Some(self.entries[i].message),
            None => None,
        }
    }

    /// The database after a message was seen at `now`: the message is added
    /// unless one with its digest is there already.
    pub open spec fn insert(self, digest: Digest, message: MessageView, now: u64) -> DatabaseView {
        if self.holds(digest) {
            self
        } else {
            DatabaseView {
                entries: self.entries.push(SeenEntryView { digest, seen_at: now, message }),
                ..self
            }
        }
    }

    /// The database after the messages that are out of the window at `now`
    /// were forgotten.
    pub open spec fn prune(self, now: u64) -> DatabaseView {
        DatabaseView {
            entries: unexpired(self.entries, self.ttl_ms, now, self.entries.len() as int),
            ..self
        }
    }
}

/// What a search finds has the digest, and nothing before it has.
pub proof fn lemma_find_seen(entries: Seq<SeenEntryView>, digest: Digest, from: int)
    requires
        0 <= from,
    ensures
        match find_seen_from(entries, digest, from) {
            Some(i) => from <= i < entries.len() && entries[i].digest == digest,
            None => forall|k: int| from <= k < entries.len() ==> entries[k].digest != digest,
        },
    decreases entries.len() - from,
{
    if from < entries.len() && entries[from].digest != digest {
        lemma_find_seen(entries, digest, from + 1);
    }
}

/// Copies a message.
pub fn copy_message(m: &Message) -> (copy: Message)
    ensures
        copy@ == m@,
{
    Message {
        topic: m.topic,
        origin: m.origin,
        signature: m.signature,
        payload: copy_vec(&m.payload),
    }
}

impl Database {
    /// Makes an empty database whose window is `ttl_ms` milliseconds long.
    pub fn new(ttl_ms: u64) -> (db: Database)
        ensures
            db@ == (DatabaseView { ttl_ms, entries: Seq::empty() }),
    {
        let db = Database { ttl_ms, entries: Vec::new() };
        assert(db@.entries =~= Seq::empty());
        db
    }

    fn find(&self, digest: &Digest) -> (found: Option<usize>)
        ensures
            match found {
                Some(i) => find_seen_from(self@.entries, *digest, 0) == Some(i as int) && i
                    < self.entries.len(),
                None => find_seen_from(self@.entries, *digest, 0) is None,
            },
    {
        let mut i: usize = 0;
        while i < self.entries.len()
            invariant
                i <= self.entries.len(),
                find_seen_from(self@.entries, *digest, 0) == find_seen_from(
                    self@.entries,
                    *digest,
                    i as int,
                ),
            decreases self.entries.len() - i,
        {
            if digest_eq(&self.entries[i].digest, digest) {
                return Some(i);
            }
            i += 1;
        }
        None
    }

    /// Tells whether a message with this digest was seen.
    pub fn contains(&self, digest: &Digest) -> (seen: bool)
        ensures
            seen == self@.holds(*digest),
    {
        self.find(digest).is_some()
    }

    /// Looks up the message with this digest.
    pub fn get_message(&self, digest: &Digest) -> (message: Option<&Message>)
        ensures
            match message {
                Some(m) => self@.message(*digest) == Some(m@),
                None => self@.message(*digest) is None,
            },
    {
        match self.find(digest) {
            Some(i) => Some(&self.entries[i].message),
            None => None,
        }
    }

    /// Notes a message as seen at `now`.
    pub fn insert(&mut self, digest: Digest, message: Message, now: u64)
        ensures
            final(self)@ == old(self)@.insert(digest, message@, now),
    {
        if self.contains(&digest) {
            return ;
        }
        self.entries.push(SeenEntry { digest, seen_at: now, message });
        assert(self@.entries =~= old(self)@.entries.push(
            SeenEntryView { digest, seen_at: now, message: message@ },
        ));
    }

    /// Forgets the messages that are out of the window at `now`.
    pub fn prune(&mut self, now: u64)
        ensures
            final(self)@ == old(self)@.prune(now),
    {
        let ghost whole = self@.entries;
        let ttl = self.ttl_ms;
        let mut kept: usize = 0;
        let mut looked: usize = 0;
        let n = self.entries.len();
        assert(self@.entries.take(0) =~= unexpired(whole, ttl, now, 0));
        while looked < n
            invariant
                looked <= n == whole.len(),
                kept <= looked,
                self.ttl_ms == ttl,
                self.entries.len() == kept + (n - looked),
                self@.entries.take(kept as int) == unexpired(whole, ttl, now, looked as int),
                forall|j: int|
                    0 <= j < n - looked ==> (#[trigger] self.entries@[kept + j])@ == whole[looked
                        + j],
            decreases n - looked,
        {
            let ghost before = self.entries@;
            let ghost head = self@.entries.take(kept as int);
            assert(before[kept + 0]@ == whole[looked + 0]);
            let seen_at = self.entries[kept].seen_at;
            let out = match seen_at.checked_add(ttl) {
                Some(end) => end < now,
                None => false,
            };
            if out {
                self.entries.remove(kept);
                assert(self@.entries.take(kept as int) =~= head);
                assert forall|j: int| 0 <= j < n - (looked + 1) implies (
                #[trigger] self.entries@[kept + j])@ == whole[looked + 1 + j] by {
                    assert(before[kept + (j + 1)]@ == whole[looked + (j + 1)]);
                }
            } else {
                assert(self@.entries.take(kept + 1) =~= head.push(whole[looked as int]));
                assert forall|j: int| 0 <= j < n - (looked + 1) implies (
                #[trigger] self.entries@[kept + 1 + j])@ == whole[looked + 1 + j] by {
                    assert(before[kept + (j + 1)]@ == whole[looked + (j + 1)]);
                }
                kept += 1;
            }
            looked += 1;
        }
        assert(self@.entries.take(kept as int) =~= self@.entries);
    }
}

} // verus!
