//! The gossip broadcast: a single-threaded context that answers frames from
//! peers one at a time.
//!
//! Whoever runs the loop reads frames off the connections, resolves the
//! origin of a message and checks its signature, and hands the frame and the
//! verdict to the context. The context says what is to be sent in return.

use crate::epoch::contains_index;
use crate::frame::{Advr, Frame, FrameView, Message, MessageView, Topic, Want};
use crate::hashing::{blake3, blake3_hash, digest_eq, Digest};
use crate::interner::{lemma_interned_is_found, Interner, InternerView};
use crate::keys::{array_of, lemma_array_of, NodeIndex};
use crate::ring::{views_of, MessageRing, RingView, SharedMessage, SharedMessageView};
use crate::seen::{
    copy_message, expired, find_seen_from, lemma_find_seen, unexpired, Database, DatabaseView,
    SeenEntryView,
};
use crate::sums::copy_vec;
use crate::codec::push_all;
use crate::wire::{le_bytes, push_le};
use vstd::prelude::*;

verus! {

/// Room in the buffer of a topic.
pub const CONSENSUS_RING: usize = 2048;

pub const DHT_RING: usize = 512;

pub const DEBUG_RING: usize = 1;

/// Who opened a connection.
#[derive(Clone, Copy, Debug, PartialEq, Eq)]
pub enum ConnectionOrigin {
    Us,
    Remote,
}

/// A peer with which a connection stands.
#[derive(Clone, Copy, Debug, PartialEq, Eq)]
pub struct Peer {
    pub index: NodeIndex,
    pub origin: ConnectionOrigin,
}

/// What is counted about a peer.
#[derive(Clone, Copy, Debug, PartialEq, Eq)]
pub struct ConnectionStats {
    pub invalid_messages_received_from_peer: u64,
}

/// The statistics of one peer.
#[derive(Clone, Copy, Debug, PartialEq, Eq)]
pub struct PeerStats {
    pub peer: NodeIndex,
    pub stats: ConnectionStats,
}

/// A message that was asked for and has not come yet.
#[derive(Clone, Copy, Debug, PartialEq, Eq)]
pub struct Pending {
    pub digest: Digest,
    /// The peer that advertised the message first and was asked for it.
    pub from: NodeIndex,
}

/// A frame that is to be sent to a peer.
#[derive(Clone, Debug, PartialEq, Eq)]
pub struct Outgoing {
    pub to: NodeIndex,
    pub frame: Frame,
}

/// An outgoing frame as a mathematical value.
pub struct OutgoingView {
    pub to: NodeIndex,
    pub frame: FrameView,
}

impl View for Outgoing {
    type V = OutgoingView;

    open spec fn view(&self) -> OutgoingView {
        OutgoingView { to: self.to, frame: self.frame@ }
    }
}

/// What the check of a message's origin and signature found.
#[derive(Clone, Copy, Debug, PartialEq, Eq)]
pub enum Verification {
    /// No node has the index that the message names as its origin.
    UnknownOrigin,
    /// The signature is not that of the origin over the digest.
    BadSignature,
    /// The origin signed the digest.
    Valid,
}

/// What a change of topology asks for.
#[derive(Clone, Debug, PartialEq, Eq)]
pub struct TopologyChange {
    /// Peers whose connections were dropped.
    pub dropped: Vec<NodeIndex>,
    /// Nodes that are to be dialed.
    pub dial: Vec<NodeIndex>,
}

/// The state of the broadcast.
#[derive(Debug)]
pub struct Context {
    /// What was seen of late.
    pub db: Database,
    pub interner: Interner,
    /// The buffers of the topics.
    pub consensus: MessageRing,
    pub dht: MessageRing,
    pub debug: MessageRing,
    /// The peers with which connections stand.
    pub peers: Vec<Peer>,
    pub stats: Vec<PeerStats>,
    /// The messages that were asked for.
    pub pending: Vec<Pending>,
    /// The index of this node, once it is known.
    pub current_node_index: Option<NodeIndex>,
}

/// The state of the broadcast as a mathematical value.
pub struct ContextView {
    pub db: DatabaseView,
    pub interner: InternerView,
    pub consensus: RingView,
    pub dht: RingView,
    pub debug: RingView,
    pub peers: Seq<Peer>,
    pub stats: Seq<PeerStats>,
    pub pending: Seq<Pending>,
    pub current_node_index: Option<NodeIndex>,
}

impl View for Context {
    type V = ContextView;

    open spec fn view(&self) -> ContextView {
        ContextView {
            db: self.db@,
            interner: self.interner@,
            consensus: self.consensus@,
            dht: self.dht@,
            debug: self.debug@,
            peers: self.peers@,
            stats: self.stats@,
            pending: self.pending@,
            current_node_index: self.current_node_index,
        }
    }
}

/// The bytes that are hashed for the digest of a message: its payload, the
/// byte of its topic, and the index of its origin in four little-endian
/// bytes.
pub open spec fn message_preimage(m: MessageView) -> Seq<u8> {
    m.payload.push(crate::frame::topic_index(m.topic) as u8).add(le_bytes(m.origin as nat, 4))
}

/// The digest of a message: the BLAKE3 hash of its payload, its topic and
/// its origin.
pub open spec fn message_digest_spec(m: MessageView) -> Digest {
    array_of::<32>(blake3_hash(message_preimage(m)))
}

/// The digest that a frame is handled with: that of the message that it
/// carries, or all zeros where it carries none.
pub open spec fn frame_digest(frame: FrameView) -> Digest {
    match frame {
        FrameView::Message(m) => message_digest_spec(m),
        _ => crate::hashing::zero_digest_spec(),
    }
}

/// Whether a message with this digest was asked for.
pub open spec fn is_pending(pending: Seq<Pending>, digest: Digest) -> bool {
    exists|i: int| 0 <= i < pending.len() && (#[trigger] pending[i]).digest == digest
}

/// Those of the first `upto` requests that are not for `digest`.
pub open spec fn other_pending(pending: Seq<Pending>, digest: Digest, upto: int) -> Seq<Pending>
    decreases upto,
{
    if upto <= 0 {
        Seq::empty()
    } else if pending[upto - 1].digest == digest {
        other_pending(pending, digest, upto - 1)
    } else {
        other_pending(pending, digest, upto - 1).push(pending[upto - 1])
    }
}

/// Whether a connection with this node stands.
pub open spec fn is_connected(peers: Seq<Peer>, index: NodeIndex) -> bool {
    exists|i: int| 0 <= i < peers.len() && (#[trigger] peers[i]).index == index
}

/// The advertisement of a message to those of the first `upto` peers that are
/// neither the one that sent the message nor the one that it comes from.
pub open spec fn adverts(
    peers: Seq<Peer>,
    sender: NodeIndex,
    origin: NodeIndex,
    advr: Advr,
    upto: int,
) -> Seq<OutgoingView>
    decreases upto,
{
    if upto <= 0 {
        Seq::empty()
    } else if peers[upto - 1].index == sender || peers[upto - 1].index == origin {
        adverts(peers, sender, origin, advr, upto - 1)
    } else {
        adverts(peers, sender, origin, advr, upto - 1).push(
            OutgoingView { to: peers[upto - 1].index, frame: FrameView::Advr(advr) },
        )
    }
}

/// The first place at or after `from` of the statistics of a peer.
pub open spec fn find_stats_from(stats: Seq<PeerStats>, peer: NodeIndex, from: int) -> Option<int>
    decreases stats.len() - from,
{
    if from < 0 || from >= stats.len() {
        None
    } else if stats[from].peer == peer {
        Some(from)
    } else {
        find_stats_from(stats, peer, from + 1)
    }
}

/// The statistics after one more invalid message from `peer` was counted.
/// The count stops at the largest number.
pub open spec fn count_invalid(stats: Seq<PeerStats>, peer: NodeIndex) -> Seq<PeerStats> {
    match find_stats_from(stats, peer, 0) {
        Some(i) => {
            let seen = stats[i].stats.invalid_messages_received_from_peer;
            stats.update(
                i,
                PeerStats {
                    peer,
                    stats: ConnectionStats {
                        invalid_messages_received_from_peer: if seen == u64::MAX {
                            seen
                        } else {
                            (seen + 1) as u64
                        },
                    },
                },
            )
        },
        None => stats.push(
            PeerStats { peer, stats: ConnectionStats { invalid_messages_received_from_peer: 1 } },
        ),
    }
}

/// Those of the first `upto` peers that the plan names.
pub open spec fn peers_kept(peers: Seq<Peer>, plan: Seq<NodeIndex>, upto: int) -> Seq<Peer>
    decreases upto,
{
    if upto <= 0 {
        Seq::empty()
    } else if plan.contains(peers[upto - 1].index) {
        peers_kept(peers, plan, upto - 1).push(peers[upto - 1])
    } else {
        peers_kept(peers, plan, upto - 1)
    }
}

/// The indices of those of the first `upto` peers that the plan does not
/// name.
pub open spec fn peers_dropped(peers: Seq<Peer>, plan: Seq<NodeIndex>, upto: int) -> Seq<NodeIndex>
    decreases upto,
{
    if upto <= 0 {
        Seq::empty()
    } else if plan.contains(peers[upto - 1].index) {
        peers_dropped(peers, plan, upto - 1)
    } else {
        peers_dropped(peers, plan, upto - 1).push(peers[upto - 1].index)
    }
}

/// Those of the first `upto` nodes of the plan that are to be dialed: nodes
/// with which no connection stands, but for this node itself, each once.
pub open spec fn to_dial(
    peers: Seq<Peer>,
    plan: Seq<NodeIndex>,
    me: Option<NodeIndex>,
    upto: int,
) -> Seq<NodeIndex>
    decreases upto,
{
    if upto <= 0 {
        Seq::empty()
    } else {
        let before = to_dial(peers, plan, me, upto - 1);
        let node = plan[upto - 1];
        if is_connected(peers, node) || me == Some(node) || before.contains(node) {
            before
        } else {
            before.push(node)
        }
    }
}

impl ContextView {
    /// What holds of every context: its buffers and its interner are well
    /// formed.
    pub open spec fn wf(self) -> bool {
        &&& self.consensus.wf()
        &&& self.dht.wf()
        &&& self.debug.wf()
        &&& self.interner.wf()
    }

    /// The buffer of a topic.
    pub open spec fn ring(self, topic: Topic) -> RingView {
        match topic {
            Topic::Consensus => self.consensus,
            Topic::DistributedHashTable => self.dht,
            Topic::Debug => self.debug,
        }
    }

    /// The context with the buffer of a topic replaced.
    pub open spec fn with_ring(self, topic: Topic, ring: RingView) -> ContextView {
        match topic {
            Topic::Consensus => ContextView { consensus: ring, ..self },
            Topic::DistributedHashTable => ContextView { dht: ring, ..self },
            Topic::Debug => ContextView { debug: ring, ..self },
        }
    }

    /// An advertisement came in. A message that was seen or asked for already
    /// is not asked for again; any other is asked for from the peer that
    /// advertised it, under the id by which that peer calls it.
    pub open spec fn on_advr(self, sender: NodeIndex, advr: Advr) -> (
        ContextView,
        Option<OutgoingView>,
    ) {
        if self.db.holds(advr.digest) || is_pending(self.pending, advr.digest) {
            (self, None)
        } else {
            (
                ContextView {
                    pending: self.pending.push(Pending { digest: advr.digest, from: sender }),
                    ..self
                },
                Some(
                    OutgoingView {
                        to: sender,
                        frame: FrameView::Want(Want { interned_id: advr.interned_id }),
                    },
                ),
            )
        }
    }

    /// A request came in. The message is sent where the id stands for a
    /// digest whose message is still held; otherwise nothing is.
    pub open spec fn on_want(self, sender: NodeIndex, want: Want) -> Option<OutgoingView> {
        match self.interner.get(want.interned_id) {
            None => None,
            Some(digest) => match self.db.message(digest) {
                None => None,
                Some(m) => Some(OutgoingView { to: sender, frame: FrameView::Message(m) }),
            },
        }
    }

    /// A message came in whose digest is `digest` and whose check found
    /// `verdict`. A message that did not pass the check is counted against
    /// the peer that sent it and dropped. A message that was seen before is
    /// dropped. Any other message is noted as seen, gets an id, goes into the
    /// buffer of its topic, is no longer asked for, and is advertised to
    /// every peer but the one that sent it and the one that it comes from.
    pub open spec fn on_message(
        self,
        sender: NodeIndex,
        m: MessageView,
        digest: Digest,
        verdict: Verification,
        now: u64,
    ) -> (ContextView, Seq<OutgoingView>) {
        if verdict != Verification::Valid {
            (ContextView { stats: count_invalid(self.stats, sender), ..self }, Seq::empty())
        } else if self.db.holds(digest) {
            (self, Seq::empty())
        } else {
            let (id, interner) = self.interner.insert(digest);
            let shared = SharedMessageView { digest, origin: m.origin, payload: m.payload };
            let after = ContextView {
                db: self.db.insert(digest, m, now),
                interner,
                pending: other_pending(self.pending, digest, self.pending.len() as int),
                ..self
            }.with_ring(m.topic, self.ring(m.topic).insert(shared));
            (
                after,
                match id {
                    Some(i) => adverts(
                        self.peers,
                        sender,
                        m.origin,
                        Advr { interned_id: i, digest },
                        self.peers.len() as int,
                    ),
                    None => Seq::empty(),
                },
            )
        }
    }

    /// A frame came in. An advertisement and a request are answered with at
    /// most one frame; a message is handled with its digest and with what
    /// the check of its signature found.
    pub open spec fn on_frame(
        self,
        sender: NodeIndex,
        frame: FrameView,
        digest: Digest,
        verdict: Verification,
        now: u64,
    ) -> (ContextView, Seq<OutgoingView>) {
        match frame {
            FrameView::Advr(a) => (
                self.on_advr(sender, a).0,
                match self.on_advr(sender, a).1 {
                    Some(o) => seq![o],
                    None => Seq::empty(),
                },
            ),
            FrameView::Want(w) => (
                self,
                match self.on_want(sender, w) {
                    Some(o) => seq![o],
                    None => Seq::empty(),
                },
            ),
            FrameView::Message(m) => self.on_message(sender, m, digest, verdict, now),
        }
    }

    /// The context after the messages that are out of the window at `now`
    /// were forgotten.
    pub open spec fn pruned(self, now: u64) -> ContextView {
        ContextView { db: self.db.prune(now), ..self }
    }

    /// A frame came in at `now`. What is out of the window by then is
    /// forgotten first; the frame is then handled, a message with the digest
    /// that is computed from it.
    pub open spec fn on_incoming(
        self,
        sender: NodeIndex,
        frame: FrameView,
        verdict: Verification,
        now: u64,
    ) -> (ContextView, Seq<OutgoingView>) {
        self.pruned(now).on_frame(sender, frame, frame_digest(frame), verdict, now)
    }

    /// What a new plan of connections does to the peers: those that the plan
    /// does not name are dropped.
    pub open spec fn on_topology(self, plan: Seq<NodeIndex>) -> ContextView {
        ContextView { peers: peers_kept(self.peers, plan, self.peers.len() as int), ..self }
    }

    /// A connection was made. It is taken into the peers unless one with the
    /// node stands already.
    pub open spec fn on_connection(self, origin: ConnectionOrigin, index: NodeIndex) -> ContextView {
        if is_connected(self.peers, index) {
            self
        } else {
            ContextView { peers: self.peers.push(Peer { index, origin }), ..self }
        }
    }
}

/// Broadcast authenticity. A message that fails the check of its origin's
/// signature never reaches a buffer: it leaves the buffers, the database of
/// seen messages and the interner as they were, and nothing is sent.
pub proof fn lemma_unverified_message_is_dropped(
    c: ContextView,
    sender: NodeIndex,
    m: MessageView,
    digest: Digest,
    verdict: Verification,
    now: u64,
)
    requires
        verdict != Verification::Valid,
    ensures
        ({
            let (after, out) = c.on_message(sender, m, digest, verdict, now);
            &&& after.consensus == c.consensus
            &&& after.dht == c.dht
            &&& after.debug == c.debug
            &&& after.db == c.db
            &&& after.interner == c.interner
            &&& out.len() == 0
        }),
{
}

/// Broadcast authenticity, with the window. A message that comes in and
/// fails the check of its origin's signature reaches no buffer, gets no id,
/// is not noted as seen, and nothing is sent: all that happens is that what
/// is out of the window is forgotten and the failure is counted against the
/// peer.
pub proof fn lemma_unverified_incoming_is_dropped(
    c: ContextView,
    sender: NodeIndex,
    m: MessageView,
    verdict: Verification,
    now: u64,
)
    requires
        verdict != Verification::Valid,
    ensures
        c.on_incoming(sender, FrameView::Message(m), verdict, now) == (
            ContextView { stats: count_invalid(c.stats, sender), ..c.pruned(now) },
            Seq::<OutgoingView>::empty(),
        ),
{
}

/// A message that was taken in is not taken in again: when it comes once
/// more, whoever sends it, nothing changes and nothing is sent.
pub proof fn lemma_replay_is_dropped(
    c: ContextView,
    sender: NodeIndex,
    m: MessageView,
    digest: Digest,
    now: u64,
    replayer: NodeIndex,
    later: u64,
)
    requires
        !c.db.holds(digest),
    ensures
        ({
            let (after, out) = c.on_message(sender, m, digest, Verification::Valid, now);
            after.on_message(replayer, m, digest, Verification::Valid, later) == (
                after,
                Seq::<OutgoingView>::empty(),
            )
        }),
{
    let (after, out) = c.on_message(sender, m, digest, Verification::Valid, now);
    crate::seen::lemma_find_seen(c.db.entries, digest, 0);
    lemma_find_pushed(c.db.entries, after.db.entries, digest);
}

/// Whether the context holds nothing twice: no message is noted as seen
/// twice, no message is asked for twice, and no peer is connected twice.
pub open spec fn holds_nothing_twice(c: ContextView) -> bool {
    &&& forall|i: int, j: int|
        0 <= i < j < c.db.entries.len() ==> (#[trigger] c.db.entries[i]).digest != (
        #[trigger] c.db.entries[j]).digest
    &&& forall|i: int, j: int|
        0 <= i < j < c.pending.len() ==> (#[trigger] c.pending[i]).digest != (
        #[trigger] c.pending[j]).digest
    &&& forall|i: int, j: int|
        0 <= i < j < c.peers.len() ==> (#[trigger] c.peers[i]).index != (
        #[trigger] c.peers[j]).index
}

/// What is left of seen messages of which none was there twice has none
/// twice, and was there before.
pub proof fn lemma_unexpired_distinct(entries: Seq<SeenEntryView>, ttl_ms: u64, now: u64, upto: int)
    requires
        upto <= entries.len(),
        forall|i: int, j: int|
            0 <= i < j < entries.len() ==> (#[trigger] entries[i]).digest != (
            #[trigger] entries[j]).digest,
    ensures
        ({
            let kept = unexpired(entries, ttl_ms, now, upto);
            &&& forall|a: int|
                0 <= a < kept.len() ==> exists|i: int|
                    0 <= i < upto && (#[trigger] entries[i]) == (#[trigger] kept[a])
            &&& forall|a: int, b: int|
                0 <= a < b < kept.len() ==> (#[trigger] kept[a]).digest != (
                #[trigger] kept[b]).digest
        }),
    decreases upto,
{
    if upto > 0 {
        lemma_unexpired_distinct(entries, ttl_ms, now, upto - 1);
        let before = unexpired(entries, ttl_ms, now, upto - 1);
        let kept = unexpired(entries, ttl_ms, now, upto);
        assert forall|a: int| 0 <= a < kept.len() implies exists|i: int|
            0 <= i < upto && (#[trigger] entries[i]) == (#[trigger] kept[a]) by {
            if a < before.len() {
                let i = choose|i: int| 0 <= i < upto - 1 && (#[trigger] entries[i]) == before[a];
                assert(entries[i] == kept[a]);
            } else {
                assert(entries[upto - 1] == kept[a]);
            }
        }
        assert forall|a: int, b: int| 0 <= a < b < kept.len() implies (#[trigger] kept[a]).digest
            != (#[trigger] kept[b]).digest by {
            if b < before.len() {
                assert(before[a].digest != before[b].digest);
            } else {
                let i = choose|i: int| 0 <= i < upto - 1 && (#[trigger] entries[i]) == before[a];
                assert(entries[i].digest != entries[upto - 1].digest);
            }
        }
    }
}

/// What is left of requests of which none was there twice has none twice,
/// and none for the digest that was taken out.
pub proof fn lemma_other_pending_distinct(pending: Seq<Pending>, digest: Digest, upto: int)
    requires
        upto <= pending.len(),
        forall|i: int, j: int|
            0 <= i < j < pending.len() ==> (#[trigger] pending[i]).digest != (
            #[trigger] pending[j]).digest,
    ensures
        ({
            let kept = other_pending(pending, digest, upto);
            &&& forall|a: int|
                0 <= a < kept.len() ==> (#[trigger] kept[a]).digest != digest && exists|i: int|
                    0 <= i < upto && (#[trigger] pending[i]) == kept[a]
            &&& forall|a: int, b: int|
                0 <= a < b < kept.len() ==> (#[trigger] kept[a]).digest != (
                #[trigger] kept[b]).digest
        }),
    decreases upto,
{
    if upto > 0 {
        lemma_other_pending_distinct(pending, digest, upto - 1);
        let before = other_pending(pending, digest, upto - 1);
        let kept = other_pending(pending, digest, upto);
        assert forall|a: int| 0 <= a < kept.len() implies (#[trigger] kept[a]).digest != digest
            && exists|i: int| 0 <= i < upto && (#[trigger] pending[i]) == kept[a] by {
            if a < before.len() {
                let i = choose|i: int| 0 <= i < upto - 1 && (#[trigger] pending[i]) == before[a];
                assert(pending[i] == kept[a]);
            } else {
                assert(pending[upto - 1] == kept[a]);
            }
        }
        assert forall|a: int, b: int| 0 <= a < b < kept.len() implies (#[trigger] kept[a]).digest
            != (#[trigger] kept[b]).digest by {
            if b < before.len() {
                assert(before[a].digest != before[b].digest);
            } else {
                let i = choose|i: int| 0 <= i < upto - 1 && (#[trigger] pending[i]) == before[a];
                assert(pending[i].digest != pending[upto - 1].digest);
            }
        }
    }
}

/// The peers that a plan keeps, of peers of which none was there twice, have
/// none twice.
pub proof fn lemma_peers_kept_distinct(peers: Seq<Peer>, plan: Seq<NodeIndex>, upto: int)
    requires
        upto <= peers.len(),
        forall|i: int, j: int|
            0 <= i < j < peers.len() ==> (#[trigger] peers[i]).index != (#[trigger] peers[j]).index,
    ensures
        ({
            let kept = peers_kept(peers, plan, upto);
            &&& forall|a: int|
                0 <= a < kept.len() ==> exists|i: int|
                    0 <= i < upto && (#[trigger] peers[i]) == (#[trigger] kept[a])
            &&& forall|a: int, b: int|
                0 <= a < b < kept.len() ==> (#[trigger] kept[a]).index != (
                #[trigger] kept[b]).index
        }),
    decreases upto,
{
    if upto > 0 {
        lemma_peers_kept_distinct(peers, plan, upto - 1);
        let before = peers_kept(peers, plan, upto - 1);
        let kept = peers_kept(peers, plan, upto);
        assert forall|a: int| 0 <= a < kept.len() implies exists|i: int|
            0 <= i < upto && (#[trigger] peers[i]) == (#[trigger] kept[a]) by {
            if a < before.len() {
                let i = choose|i: int| 0 <= i < upto - 1 && (#[trigger] peers[i]) == before[a];
                assert(peers[i] == kept[a]);
            } else {
                assert(peers[upto - 1] == kept[a]);
            }
        }
        assert forall|a: int, b: int| 0 <= a < b < kept.len() implies (#[trigger] kept[a]).index
            != (#[trigger] kept[b]).index by {
            if b < before.len() {
                assert(before[a].index != before[b].index);
            } else {
                let i = choose|i: int| 0 <= i < upto - 1 && (#[trigger] peers[i]) == before[a];
                assert(peers[i].index != peers[upto - 1].index);
            }
        }
    }
}

/// The tables of the context are keyed. Whatever comes in, whatever plan is
/// applied and whatever connection is made, no message is noted as seen
/// twice, no message is asked for twice, and no peer is connected twice.
pub proof fn lemma_holds_nothing_twice(
    c: ContextView,
    sender: NodeIndex,
    frame: FrameView,
    verdict: Verification,
    now: u64,
    plan: Seq<NodeIndex>,
    origin: ConnectionOrigin,
    index: NodeIndex,
)
    requires
        holds_nothing_twice(c),
    ensures
        holds_nothing_twice(c.pruned(now)),
        holds_nothing_twice(c.on_incoming(sender, frame, verdict, now).0),
        holds_nothing_twice(c.on_topology(plan)),
        holds_nothing_twice(c.on_connection(origin, index)),
{
    lemma_unexpired_distinct(c.db.entries, c.db.ttl_ms, now, c.db.entries.len() as int);
    lemma_peers_kept_distinct(c.peers, plan, c.peers.len() as int);
    let p = c.pruned(now);
    assert(holds_nothing_twice(p));
    let digest = frame_digest(frame);
    lemma_frame_keeps_tables(p, sender, frame, digest, verdict, now);
}

/// Handling a frame holds nothing twice.
pub proof fn lemma_frame_keeps_tables(
    c: ContextView,
    sender: NodeIndex,
    frame: FrameView,
    digest: Digest,
    verdict: Verification,
    now: u64,
)
    requires
        holds_nothing_twice(c),
    ensures
        holds_nothing_twice(c.on_frame(sender, frame, digest, verdict, now).0),
{
    let after = c.on_frame(sender, frame, digest, verdict, now).0;
    match frame {
        FrameView::Advr(a) => {
            if after != c {
                assert forall|i: int, j: int| 0 <= i < j < after.pending.len() implies (
                #[trigger] after.pending[i]).digest != (#[trigger] after.pending[j]).digest by {
                    if j < c.pending.len() {
                        assert(c.pending[i].digest != c.pending[j].digest);
                    } else {
                        assert(c.pending[i].digest != a.digest);
                    }
                }
            }
        },
        FrameView::Want(w) => {},
        FrameView::Message(m) => {
            if verdict == Verification::Valid && !c.db.holds(digest) {
                lemma_other_pending_distinct(c.pending, digest, c.pending.len() as int);
                lemma_find_seen(c.db.entries, digest, 0);
                assert forall|i: int, j: int| 0 <= i < j < after.db.entries.len() implies (
                #[trigger] after.db.entries[i]).digest != (
                #[trigger] after.db.entries[j]).digest by {
                    if j < c.db.entries.len() {
                        assert(c.db.entries[i].digest != c.db.entries[j].digest);
                    } else {
                        assert(c.db.entries[i].digest != digest);
                    }
                }
                assert(after.peers == c.peers);
            }
        },
    }
}

/// A message that is still in the window is found after the messages that
/// are out of it were forgotten.
pub proof fn lemma_unexpired_is_found(
    entries: Seq<SeenEntryView>,
    ttl_ms: u64,
    now: u64,
    upto: int,
    k: int,
)
    requires
        0 <= k < upto <= entries.len(),
        !expired(entries[k], ttl_ms, now),
    ensures
        find_seen_from(unexpired(entries, ttl_ms, now, upto), entries[k].digest, 0) is Some,
    decreases upto,
{
    let kept = unexpired(entries, ttl_ms, now, upto);
    let digest = entries[k].digest;
    if k == upto - 1 {
        assert(kept[kept.len() - 1].digest == digest);
    } else {
        lemma_unexpired_is_found(entries, ttl_ms, now, upto - 1, k);
        let before = unexpired(entries, ttl_ms, now, upto - 1);
        lemma_find_seen(before, digest, 0);
        let j = find_seen_from(before, digest, 0).unwrap();
        assert(kept[j] == before[j]);
    }
    lemma_find_seen(kept, digest, 0);
}

/// A message that was taken in is not taken in again while it is in the
/// window: when it comes once more before its time is up, whoever sends it,
/// it goes into no buffer and nothing is sent.
pub proof fn lemma_replay_in_window_is_dropped(
    c: ContextView,
    sender: NodeIndex,
    m: MessageView,
    now: u64,
    replayer: NodeIndex,
    later: u64,
)
    requires
        !c.pruned(now).db.holds(message_digest_spec(m)),
        now + c.db.ttl_ms >= later,
    ensures
        ({
            let frame = FrameView::Message(m);
            let after = c.on_incoming(sender, frame, Verification::Valid, now).0;
            after.on_incoming(replayer, frame, Verification::Valid, later) == (
                after.pruned(later),
                Seq::<OutgoingView>::empty(),
            )
        }),
{
    let digest = message_digest_spec(m);
    let after = c.on_incoming(sender, FrameView::Message(m), Verification::Valid, now).0;
    let before = c.pruned(now).db.entries;
    assert(after.db.entries == before.push(SeenEntryView { digest, seen_at: now, message: m }));
    let k = before.len() as int;
    assert(after.db.entries[k].digest == digest);
    lemma_unexpired_is_found(
        after.db.entries,
        after.db.ttl_ms,
        later,
        after.db.entries.len() as int,
        k,
    );
}

/// A message that was just added to the seen messages is found there.
proof fn lemma_find_pushed(
    before: Seq<crate::seen::SeenEntryView>,
    after: Seq<crate::seen::SeenEntryView>,
    digest: Digest,
)
    requires
        after.len() == before.len() + 1,
        forall|k: int| 0 <= k < before.len() ==> after[k] == before[k],
        after[before.len() as int].digest == digest,
    ensures
        crate::seen::find_seen_from(after, digest, 0) is Some,
{
    crate::seen::lemma_find_seen(after, digest, 0);
}

/// Advertisements of one message are coalesced: once a message was asked
/// for, another advertisement of it, from whomever, asks for nothing.
pub proof fn lemma_one_want(c: ContextView, first: NodeIndex, a: Advr, second: NodeIndex, b: Advr)
    requires
        a.digest == b.digest,
        c.on_advr(first, a).1 is Some,
    ensures
        c.on_advr(first, a).0.on_advr(second, b) == (c.on_advr(first, a).0, None::<OutgoingView>),
        c.on_advr(first, a).1 == Some(
            OutgoingView { to: first, frame: FrameView::Want(Want { interned_id: a.interned_id }) },
        ),
{
    let after = c.on_advr(first, a).0;
    assert(after.pending[c.pending.len() as int].digest == b.digest);
}

impl Context {
    /// Makes the context of a node that has seen nothing yet and has no
    /// peers: buffers for the three topics, an interner with every 16-bit id
    /// but the last, and a window of `ttl_ms` milliseconds.
    pub fn new(ttl_ms: u64) -> (context: Context)
        ensures
            context@.wf(),
            context@.db == (DatabaseView { ttl_ms, entries: Seq::empty() }),
            context@.interner == (InternerView {
                capacity: u16::MAX,
                next: 0,
                entries: Seq::empty(),
            }),
            context@.consensus == (RingView {
                capacity: CONSENSUS_RING as nat,
                next_seq: 0,
                items: Seq::empty(),
            }),
            context@.dht == (RingView { capacity: DHT_RING as nat, next_seq: 0, items: Seq::empty() }),
            context@.debug == (RingView {
                capacity: DEBUG_RING as nat,
                next_seq: 0,
                items: Seq::empty(),
            }),
            context@.peers.len() == 0,
            context@.stats.len() == 0,
            context@.pending.len() == 0,
            context@.current_node_index is None,
    {
        Context {
            db: Database::new(ttl_ms),
            interner: Interner::new(u16::MAX),
            consensus: MessageRing::new(CONSENSUS_RING),
            dht: MessageRing::new(DHT_RING),
            debug: MessageRing::new(DEBUG_RING),
            peers: Vec::new(),
            stats: Vec::new(),
            pending: Vec::new(),
            current_node_index: None,
        }
    }

    /// Tells whether the context is well formed. A context that was made by
    /// `new` and changed by its own methods only always is.
    pub fn is_well_formed(&self) -> (ok: bool)
        ensures
            ok == self@.wf(),
    {
        self.consensus.is_well_formed() && self.dht.is_well_formed()
            && self.debug.is_well_formed() && self.interner.entries.len()
            <= self.interner.capacity as usize && (self.interner.capacity == 0
            || self.interner.next < self.interner.capacity)
    }

    /// Notes the index of this node.
    pub fn set_current_node_index(&mut self, index: NodeIndex)
        ensures
            final(self)@ == (ContextView { current_node_index: Some(index), ..old(self)@ }),
    {
        self.current_node_index = Some(index);
    }

    fn pending_has(&self, digest: &Digest) -> (found: bool)
        ensures
            found == is_pending(self.pending@, *digest),
    {
        let mut i: usize = 0;
        while i < self.pending.len()
            invariant
                i <= self.pending.len(),
                forall|k: int| 0 <= k < i ==> (#[trigger] self.pending@[k]).digest != *digest,
            decreases self.pending.len() - i,
        {
            if digest_eq(&self.pending[i].digest, digest) {
                return true;
            }
            i += 1;
        }
        false
    }

    /// Tells whether a connection with this node stands.
    pub fn connected(&self, index: NodeIndex) -> (found: bool)
        ensures
            found == is_connected(self.peers@, index),
    {
        let mut i: usize = 0;
        while i < self.peers.len()
            invariant
                i <= self.peers.len(),
                forall|k: int| 0 <= k < i ==> (#[trigger] self.peers@[k]).index != index,
            decreases self.peers.len() - i,
        {
            if self.peers[i].index == index {
                return true;
            }
            i += 1;
        }
        false
    }

    /// Handles an advertisement from the peer `sender`.
    pub fn handle_advr(&mut self, sender: NodeIndex, advr: Advr) -> (out: Option<Outgoing>)
        ensures
            final(self)@ == old(self)@.on_advr(sender, advr).0,
            match out {
                Some(o) => old(self)@.on_advr(sender, advr).1 == Some(o@),
                None => old(self)@.on_advr(sender, advr).1 is None,
            },
    {
        if self.db.contains(&advr.digest) || self.pending_has(&advr.digest) {
            return None;
        }
        self.pending.push(Pending { digest: advr.digest, from: sender });
        Some(Outgoing { to: sender, frame: Frame::Want(Want { interned_id: advr.interned_id }) })
    }

    /// Handles a request from the peer `sender`.
    pub fn handle_want(&self, sender: NodeIndex, want: Want) -> (out: Option<Outgoing>)
        ensures
            match out {
                Some(o) => self@.on_want(sender, want) == Some(o@),
                None => self@.on_want(sender, want) is None,
            },
    {
        let digest = match self.interner.get(want.interned_id) {
            Some(d) => d,
            None => {
                return None;
            },
        };
        match self.db.get_message(&digest) {
            Some(message) => Some(
                Outgoing { to: sender, frame: Frame::Message(copy_message(message)) },
            ),
            None => None,
        }
    }

    fn count_invalid_from(&mut self, peer: NodeIndex)
        ensures
            final(self)@ == (ContextView {
                stats: count_invalid(old(self)@.stats, peer),
                ..old(self)@
            }),
    {
        let mut i: usize = 0;
        while i < self.stats.len()
            invariant
                i <= self.stats.len(),
                self@ == old(self)@,
                find_stats_from(self.stats@, peer, 0) == find_stats_from(self.stats@, peer, i as int),
            decreases self.stats.len() - i,
        {
            if self.stats[i].peer == peer {
                let seen: u64 = self.stats[i].stats.invalid_messages_received_from_peer;
                let counted: u64 = if seen == u64::MAX {
                    seen
                } else {
                    seen + 1
                };
                self.stats.set(
                    i,
                    PeerStats {
                        peer,
                        stats: ConnectionStats { invalid_messages_received_from_peer: counted },
                    },
                );
                return ;
            }
            i += 1;
        }
        self.stats.push(
            PeerStats { peer, stats: ConnectionStats { invalid_messages_received_from_peer: 1 } },
        );
    }

    fn forget_pending(&mut self, digest: &Digest)
        ensures
            final(self)@ == (ContextView {
                pending: other_pending(
                    old(self)@.pending,
                    *digest,
                    old(self)@.pending.len() as int,
                ),
                ..old(self)@
            }),
    {
        let ghost whole = self.pending@;
        let n = self.pending.len();
        let mut kept: usize = 0;
        let mut looked: usize = 0;
        assert(self.pending@.take(0) =~= other_pending(whole, *digest, 0));
        while looked < n
            invariant
                looked <= n == whole.len(),
                kept <= looked,
                self.pending.len() == kept + (n - looked),
                self@ == (ContextView { pending: self.pending@, ..old(self)@ }),
                self.pending@.take(kept as int) == other_pending(whole, *digest, looked as int),
                forall|j: int|
                    0 <= j < n - looked ==> (#[trigger] self.pending@[kept + j]) == whole[looked
                        + j],
            decreases n - looked,
        {
            let ghost before = self.pending@;
            let ghost head = self.pending@.take(kept as int);
            assert(before[kept + 0] == whole[looked + 0]);
            if digest_eq(&self.pending[kept].digest, digest) {
                self.pending.remove(kept);
                assert(self.pending@.take(kept as int) =~= head);
                assert forall|j: int| 0 <= j < n - (looked + 1) implies (
                #[trigger] self.pending@[kept + j]) == whole[looked + 1 + j] by {
                    assert(before[kept + (j + 1)] == whole[looked + (j + 1)]);
                }
            } else {
                assert(self.pending@.take(kept + 1) =~= head.push(whole[looked as int]));
                assert forall|j: int| 0 <= j < n - (looked + 1) implies (
                #[trigger] self.pending@[kept + 1 + j]) == whole[looked + 1 + j] by {
                    assert(before[kept + (j + 1)] == whole[looked + (j + 1)]);
                }
                kept += 1;
            }
            looked += 1;
        }
        assert(self.pending@.take(kept as int) =~= self.pending@);
    }

    fn advertise(&self, sender: NodeIndex, origin: NodeIndex, advr: Advr) -> (out: Vec<Outgoing>)
        ensures
            views_of(out@) == adverts(self.peers@, sender, origin, advr, self.peers@.len() as int),
    {
        let mut out: Vec<Outgoing> = Vec::new();
        let mut i: usize = 0;
        assert(views_of(out@) =~= adverts(self.peers@, sender, origin, advr, 0));
        while i < self.peers.len()
            invariant
                i <= self.peers.len(),
                views_of(out@) == adverts(self.peers@, sender, origin, advr, i as int),
            decreases self.peers.len() - i,
        {
            let to = self.peers[i].index;
            if to != sender && to != origin {
                let ghost before = views_of(out@);
                out.push(Outgoing { to, frame: Frame::Advr(advr) });
                assert(views_of(out@) =~= before.push(
                    OutgoingView { to, frame: FrameView::Advr(advr) },
                ));
            }
            i += 1;
        }
        out
    }

    /// Handles a message from the peer `sender`, given the digest of the
    /// message and what the check of its origin's signature found. Gives the
    /// advertisements that are to be sent.
    pub fn handle_message(
        &mut self,
        sender: NodeIndex,
        msg: Message,
        digest: Digest,
        verdict: Verification,
        now: u64,
    ) -> (out: Vec<Outgoing>)
        requires
            old(self)@.wf(),
        ensures
            final(self)@ == old(self)@.on_message(sender, msg@, digest, verdict, now).0,
            views_of(out@) == old(self)@.on_message(sender, msg@, digest, verdict, now).1,
            final(self)@.wf(),
    {
        match verdict {
            Verification::Valid => {},
            _ => {
                self.count_invalid_from(sender);
                let out: Vec<Outgoing> = Vec::new();
                assert(views_of(out@) =~= Seq::empty());
                return out;
            },
        }
        if self.db.contains(&digest) {
            let out: Vec<Outgoing> = Vec::new();
            assert(views_of(out@) =~= Seq::empty());
            return out;
        }
        proof {
            lemma_interned_is_found(self@.interner, digest);
        }
        let topic = msg.topic;
        let origin = msg.origin;
        let shared = SharedMessage { digest, origin, payload: copy_vec(&msg.payload) };
        let out = match self.interner.insert(&digest) {
            Some(id) => self.advertise(sender, origin, Advr { interned_id: id, digest }),
            None => {
                let out: Vec<Outgoing> = Vec::new();
                assert(views_of(out@) =~= Seq::empty());
                out
            },
        };
        self.db.insert(digest, msg, now);
        match topic {
            Topic::Consensus => self.consensus.insert(shared),
            Topic::DistributedHashTable => self.dht.insert(shared),
            Topic::Debug => self.debug.insert(shared),
        }
        self.forget_pending(&digest);
        out
    }

    /// Handles a frame from the peer `sender`. For a message, the digest of
    /// the message and what the check of its signature found are handed in
    /// too; for other frames they are not looked at.
    pub fn handle_frame(
        &mut self,
        sender: NodeIndex,
        frame: Frame,
        digest: Digest,
        verdict: Verification,
        now: u64,
    ) -> (out: Vec<Outgoing>)
        requires
            old(self)@.wf(),
        ensures
            (final(self)@, views_of(out@)) == old(self)@.on_frame(
                sender,
                frame@,
                digest,
                verdict,
                now,
            ),
            final(self)@.wf(),
    {
        match frame {
            Frame::Advr(advr) => {
                let one = self.handle_advr(sender, advr);
                single(one)
            },
            Frame::Want(want) => {
                let one = self.handle_want(sender, want);
                single(one)
            },
            Frame::Message(msg) => self.handle_message(sender, msg, digest, verdict, now),
        }
    }

    /// Handles a frame that came in from the peer `sender` at `now`: forgets
    /// what is out of the window, computes the digest of a message from the
    /// message itself, and handles the frame. `verdict` is what the check of
    /// a message's signature over that digest found; for other frames it is
    /// not looked at.
    pub fn handle_incoming(
        &mut self,
        sender: NodeIndex,
        frame: Frame,
        verdict: Verification,
        now: u64,
    ) -> (out: Vec<Outgoing>)
        requires
            old(self)@.wf(),
        ensures
            (final(self)@, views_of(out@)) == old(self)@.on_incoming(sender, frame@, verdict, now),
            final(self)@.wf(),
    {
        self.db.prune(now);
        let digest = match &frame {
            Frame::Message(msg) => message_digest(msg),
            _ => crate::hashing::zero_digest(),
        };
        self.handle_frame(sender, frame, digest, verdict, now)
    }

    /// Gives a reader of a topic the oldest message that it has not seen
    /// yet, with the number of the message.
    pub fn recv(&self, topic: Topic, last_seen: Option<u64>) -> (found: Option<(u64, SharedMessage)>)
        requires
            self@.wf(),
        ensures
            match found {
                Some((seq, m)) => {
                    let ring = self@.ring(topic);
                    let k = ring.first_unseen(last_seen);
                    &&& 0 <= k < ring.items.len()
                    &&& seq == ring.seq_at(k)
                    &&& m@ == ring.items[k]
                },
                None => self@.ring(topic).first_unseen(last_seen) == self@.ring(topic).items.len(),
            },
    {
        let ring = match topic {
            Topic::Consensus => &self.consensus,
            Topic::DistributedHashTable => &self.dht,
            Topic::Debug => &self.debug,
        };
        match ring.next_after(last_seen) {
            Some((seq, m)) => Some(
                (
                    seq,
                    SharedMessage {
                        digest: m.digest,
                        origin: m.origin,
                        payload: copy_vec(&m.payload),
                    },
                ),
            ),
            None => None,
        }
    }

    /// Takes a new connection into the peers. Says whether it was taken: a
    /// second connection with a node is not.
    pub fn handle_new_connection(&mut self, origin: ConnectionOrigin, index: NodeIndex) -> (taken:
        bool)
        ensures
            final(self)@ == old(self)@.on_connection(origin, index),
            taken == !is_connected(old(self)@.peers, index),
    {
        if self.connected(index) {
            return false;
        }
        self.peers.push(Peer { index, origin });
        true
    }

    /// Applies a new plan of connections: the peers that the plan does not
    /// name are dropped, and the nodes of the plan with which no connection
    /// stands are named for dialing.
    pub fn apply_topology(&mut self, plan: &Vec<NodeIndex>) -> (change: TopologyChange)
        ensures
            final(self)@ == old(self)@.on_topology(plan@),
            change.dropped@ == peers_dropped(
                old(self)@.peers,
                plan@,
                old(self)@.peers.len() as int,
            ),
            change.dial@ == to_dial(
                old(self)@.peers,
                plan@,
                old(self)@.current_node_index,
                plan@.len() as int,
            ),
    {
        let mut dial: Vec<NodeIndex> = Vec::new();
        let mut p: usize = 0;
        while p < plan.len()
            invariant
                p <= plan.len(),
                self@ == old(self)@,
                dial@ == to_dial(self.peers@, plan@, self.current_node_index, p as int),
            decreases plan.len() - p,
        {
            let node = plan[p];
            let me = match self.current_node_index {
                Some(i) => i == node,
                None => false,
            };
            if !self.connected(node) && !me && !contains_index(&dial, node) {
                dial.push(node);
            }
            p += 1;
        }
        let mut kept: Vec<Peer> = Vec::new();
        let mut dropped: Vec<NodeIndex> = Vec::new();
        let mut i: usize = 0;
        while i < self.peers.len()
            invariant
                i <= self.peers.len(),
                self@ == old(self)@,
                kept@ == peers_kept(self.peers@, plan@, i as int),
                dropped@ == peers_dropped(self.peers@, plan@, i as int),
            decreases self.peers.len() - i,
        {
            let peer = self.peers[i];
            if contains_index(plan, peer.index) {
                kept.push(peer);
            } else {
                dropped.push(peer.index);
            }
            i += 1;
        }
        self.peers = kept;
        TopologyChange { dropped, dial }
    }
}

/// The list of what is to be sent, of at most one frame.
fn single(one: Option<Outgoing>) -> (out: Vec<Outgoing>)
    ensures
        views_of(out@) == (match one {
            Some(o) => seq![o@],
            None => Seq::empty(),
        }),
{
    let mut out: Vec<Outgoing> = Vec::new();
    match one {
        Some(o) => {
            out.push(o);
            assert(views_of(out@) =~= seq![o@]);
        },
        None => {
            assert(views_of(out@) =~= Seq::empty());
        },
    }
    out
}

/// Writes the bytes that are hashed for the digest of a message.
pub fn message_bytes(m: &Message) -> (bytes: Vec<u8>)
    ensures
        bytes@ == message_preimage(m@),
{
    let mut bytes: Vec<u8> = Vec::new();
    push_all(&mut bytes, &m.payload);
    bytes.push(crate::frame::topic_to_index(m.topic) as u8);
    push_le(&mut bytes, m.origin as u64, 4);
    assert(bytes@ =~= message_preimage(m@));
    bytes
}

/// Computes the digest of a message, over which its origin signs: the BLAKE3
/// hash of its payload, its topic and its origin.
pub fn message_digest(m: &Message) -> (digest: Digest)
    ensures
        digest@ == blake3_hash(message_preimage(m@)),
        digest == message_digest_spec(m@),
{
    let bytes = message_bytes(m);
    let digest = blake3(&bytes);
    proof {
        lemma_array_of(digest);
    }
    digest
}

} // verus!
