use lightning_core::gossip::{
    message_bytes, message_digest, ConnectionOrigin, Context, Outgoing, Verification,
};
use lightning_core::frame::{Advr, Frame, Message, Topic, Want};
use lightning_core::interner::Interner;
use lightning_core::ring::{MessageRing, SharedMessage};
use lightning_core::seen::Database;

const TTL: u64 = 60_000;

fn message(origin: u32, payload: &[u8]) -> Message {
    Message { topic: Topic::Debug, origin, signature: [5; 64], payload: payload.to_vec() }
}

fn context_with_peers(peers: &[u32]) -> Context {
    let mut context = Context::new(TTL);
    context.set_current_node_index(0);
    for p in peers {
        assert!(context.handle_new_connection(ConnectionOrigin::Remote, *p));
    }
    context
}

#[test]
fn new_context_has_the_three_rings() {
    let context = Context::new(TTL);
    assert_eq!(context.consensus.capacity, 2048);
    assert_eq!(context.dht.capacity, 512);
    assert_eq!(context.debug.capacity, 1);
    assert_eq!(context.interner.capacity, u16::MAX);
    assert!(context.peers.is_empty());
}

#[test]
fn gossip_dedup() {
    let mut node = context_with_peers(&[1, 2, 3]);
    let msg = message(9, b"hello");
    let digest = message_digest(&msg);

    // Two peers advertise the same digest: one request, to the first.
    let first = node.handle_advr(1, Advr { interned_id: 10, digest });
    assert_eq!(
        first,
        Some(Outgoing { to: 1, frame: Frame::Want(Want { interned_id: 10 }) })
    );
    let second = node.handle_advr(2, Advr { interned_id: 44, digest });
    assert_eq!(second, None);
    assert_eq!(node.pending.len(), 1);
    assert_eq!(node.pending[0].from, 1);

    // The message comes: it goes into the ring once and is advertised to
    // the peers that did not send it.
    let out = node.handle_message(1, msg.clone(), digest, Verification::Valid, 1000);
    assert_eq!(node.debug.items.len(), 1);
    assert_eq!(
        node.debug.items[0],
        SharedMessage { digest, origin: 9, payload: b"hello".to_vec() }
    );
    assert!(node.pending.is_empty());
    let id = out_id(&out[0]);
    assert_eq!(
        out,
        vec![
            Outgoing { to: 2, frame: Frame::Advr(Advr { interned_id: id, digest }) },
            Outgoing { to: 3, frame: Frame::Advr(Advr { interned_id: id, digest }) },
        ]
    );

    // A replay is dropped silently.
    let replay = node.handle_message(2, msg, digest, Verification::Valid, 2000);
    assert!(replay.is_empty());
    assert_eq!(node.debug.items.len(), 1);
    assert_eq!(node.debug.next_seq, 1);
    assert!(node.stats.is_empty());

    // So is another advertisement of it.
    assert_eq!(node.handle_advr(3, Advr { interned_id: 1, digest }), None);
    assert!(node.pending.is_empty());
}

fn out_id(out: &Outgoing) -> u16 {
    match &out.frame {
        Frame::Advr(a) => a.interned_id,
        _ => panic!("not an advertisement"),
    }
}

#[test]
fn origin_is_not_advertised_to() {
    let mut node = context_with_peers(&[1, 2, 3]);
    let msg = message(3, b"from three");
    let digest = message_digest(&msg);
    let out = node.handle_message(1, msg, digest, Verification::Valid, 0);
    assert_eq!(out.len(), 1);
    assert_eq!(out[0].to, 2);
}

#[test]
fn message_with_bad_signature_never_reaches_a_ring() {
    let mut node = context_with_peers(&[1, 2]);
    let msg = message(9, b"forged");
    let digest = message_digest(&msg);

    let out = node.handle_message(1, msg.clone(), digest, Verification::BadSignature, 0);
    assert!(out.is_empty());
    assert!(node.debug.items.is_empty());
    assert!(node.db.entries.is_empty());
    assert_eq!(node.stats.len(), 1);
    assert_eq!(node.stats[0].peer, 1);
    assert_eq!(node.stats[0].stats.invalid_messages_received_from_peer, 1);

    let out = node.handle_message(1, msg.clone(), digest, Verification::UnknownOrigin, 0);
    assert!(out.is_empty());
    assert!(node.debug.items.is_empty());
    assert_eq!(node.stats[0].stats.invalid_messages_received_from_peer, 2);

    // The same message with a good signature is taken.
    let out = node.handle_message(1, msg, digest, Verification::Valid, 0);
    assert_eq!(out.len(), 1);
    assert_eq!(node.debug.items.len(), 1);
}

#[test]
fn want_is_answered_while_the_message_is_held() {
    let mut node = context_with_peers(&[1, 2]);
    let msg = message(9, b"payload");
    let digest = message_digest(&msg);
    let out = node.handle_message(1, msg.clone(), digest, Verification::Valid, 0);
    let id = out_id(&out[0]);

    assert_eq!(
        node.handle_want(2, Want { interned_id: id }),
        Some(Outgoing { to: 2, frame: Frame::Message(msg) })
    );
    // An id that stands for nothing is dropped silently.
    assert_eq!(node.handle_want(2, Want { interned_id: id + 1 }), None);

    // Once the message has left the window nothing is sent either.
    node.db.prune(TTL + 1);
    assert_eq!(node.handle_want(2, Want { interned_id: id }), None);
}

#[test]
fn handle_frame_dispatches_by_kind() {
    let mut node = context_with_peers(&[1, 2]);
    let msg = message(7, b"x");
    let digest = message_digest(&msg);
    let unused = [0u8; 32];

    let out = node.handle_frame(
        1,
        Frame::Advr(Advr { interned_id: 3, digest }),
        unused,
        Verification::BadSignature,
        0,
    );
    assert_eq!(out, vec![Outgoing { to: 1, frame: Frame::Want(Want { interned_id: 3 }) }]);

    let out = node.handle_frame(1, Frame::Message(msg.clone()), digest, Verification::Valid, 0);
    assert_eq!(out.len(), 1);
    let id = out_id(&out[0]);

    let out = node.handle_frame(
        2,
        Frame::Want(Want { interned_id: id }),
        unused,
        Verification::BadSignature,
        0,
    );
    assert_eq!(out, vec![Outgoing { to: 2, frame: Frame::Message(msg) }]);
    assert!(node.stats.is_empty());
}

#[test]
fn rings_drop_their_oldest_message() {
    let mut ring = MessageRing::new(2);
    for i in 0..5u8 {
        ring.insert(SharedMessage { digest: [i; 32], origin: i as u32, payload: vec![i] });
    }
    assert_eq!(ring.len(), 2);
    assert_eq!(ring.next_seq, 5);
    assert_eq!(ring.items[0].payload, vec![3]);
    assert_eq!(ring.items[1].payload, vec![4]);

    // A reader that has seen nothing gets the oldest that is left.
    assert_eq!(ring.next_after(None).map(|(seq, m)| (seq, m.origin)), Some((3, 3)));
    // A reader that fell behind skips what was dropped.
    assert_eq!(ring.next_after(Some(0)).map(|(seq, m)| (seq, m.origin)), Some((3, 3)));
    assert_eq!(ring.next_after(Some(3)).map(|(seq, m)| (seq, m.origin)), Some((4, 4)));
    assert_eq!(ring.next_after(Some(4)), None);
    assert_eq!(ring.next_after(Some(100)), None);
}

#[test]
fn debug_ring_holds_one_message() {
    let mut node = context_with_peers(&[1]);
    for payload in [b"a", b"b", b"c"] {
        let msg = message(9, payload);
        let digest = message_digest(&msg);
        node.handle_message(1, msg, digest, Verification::Valid, 0);
    }
    assert_eq!(node.debug.items.len(), 1);
    assert_eq!(node.debug.items[0].payload, b"c".to_vec());
    let got = node.recv(Topic::Debug, None).unwrap();
    assert_eq!(got.0, 2);
    assert_eq!(got.1.payload, b"c".to_vec());
    assert_eq!(node.recv(Topic::Debug, Some(2)), None);
    assert_eq!(node.recv(Topic::Consensus, None), None);
}

#[test]
fn interner_gives_ids_in_turn() {
    let mut interner = Interner::new(2);
    assert_eq!(interner.insert(&[1; 32]), Some(0));
    assert_eq!(interner.insert(&[2; 32]), Some(1));
    assert_eq!(interner.insert(&[1; 32]), Some(0));
    assert_eq!(interner.get(1), Some([2; 32]));
    assert_eq!(interner.get(2), None);
    // Every id is taken: the oldest is given out again.
    assert_eq!(interner.insert(&[3; 32]), Some(0));
    assert_eq!(interner.get(0), Some([3; 32]));
    assert_eq!(interner.insert(&[4; 32]), Some(1));
    assert_eq!(interner.insert(&[5; 32]), Some(0));
    assert_eq!(interner.get(0), Some([5; 32]));
    assert_eq!(Interner::new(0).insert(&[1; 32]), None);
}

#[test]
fn database_forgets_what_left_the_window() {
    let mut db = Database::new(100);
    db.insert([1; 32], message(1, b"one"), 1000);
    db.insert([2; 32], message(2, b"two"), 1050);
    db.insert([1; 32], message(1, b"again"), 1060);
    assert_eq!(db.entries.len(), 2);
    assert_eq!(db.get_message(&[1; 32]).unwrap().payload, b"one".to_vec());

    db.prune(1100);
    assert!(db.contains(&[1; 32]));
    db.prune(1101);
    assert!(!db.contains(&[1; 32]));
    assert!(db.contains(&[2; 32]));
    db.prune(1151);
    assert!(db.entries.is_empty());
}

#[test]
fn topology_drops_and_dials() {
    let mut node = context_with_peers(&[1, 2, 3]);
    let change = node.apply_topology(&vec![3, 4, 0, 5, 4, 1]);
    assert_eq!(change.dropped, vec![2]);
    assert_eq!(change.dial, vec![4, 5]);
    assert_eq!(node.peers.iter().map(|p| p.index).collect::<Vec<_>>(), vec![1, 3]);

    // A second connection with a peer is not taken.
    assert!(!node.handle_new_connection(ConnectionOrigin::Us, 3));
    assert!(node.handle_new_connection(ConnectionOrigin::Us, 4));
    assert!(node.connected(4));
}

#[test]
fn message_digest_is_blake3_of_payload_topic_origin() {
    let msg = Message {
        topic: Topic::DistributedHashTable,
        origin: 0x0a0b0c0d,
        signature: [0; 64],
        payload: vec![1, 2, 3],
    };
    let expected_bytes = vec![1, 2, 3, 1, 0x0d, 0x0c, 0x0b, 0x0a];
    assert_eq!(message_bytes(&msg), expected_bytes);
    let expected: [u8; 32] = fleek_blake3::hash(&expected_bytes).into();
    assert_eq!(message_digest(&msg), expected);
    // The signature is not part of what is signed.
    let mut other = msg.clone();
    other.signature = [1; 64];
    assert_eq!(message_digest(&other), expected);
    other.origin = 1;
    assert_ne!(message_digest(&other), expected);
}

#[test]
fn incoming_frames_are_handled_within_the_window() {
    let mut node = context_with_peers(&[1, 2]);
    let msg = message(9, b"windowed");
    let digest = message_digest(&msg);

    let out = node.handle_incoming(1, Frame::Message(msg.clone()), Verification::Valid, 1_000);
    assert_eq!(out.len(), 1);
    assert_eq!(node.debug.items.len(), 1);
    assert_eq!(node.debug.items[0].digest, digest);
    assert_eq!(node.db.entries[0].seen_at, 1_000);

    // A replay while the message is in the window is dropped.
    let out = node.handle_incoming(2, Frame::Message(msg.clone()), Verification::Valid, 1_000 + TTL);
    assert!(out.is_empty());
    assert_eq!(node.debug.next_seq, 1);

    // A forged message is counted and goes nowhere.
    let forged = message(9, b"forged");
    let out =
        node.handle_incoming(2, Frame::Message(forged), Verification::BadSignature, 1_000 + TTL);
    assert!(out.is_empty());
    assert_eq!(node.debug.next_seq, 1);
    assert_eq!(node.db.entries.len(), 1);
    assert_eq!(node.stats[0].peer, 2);

    // Once the window has passed the message is forgotten, and taken again
    // when it comes.
    let out = node.handle_incoming(
        1,
        Frame::Advr(Advr { interned_id: 5, digest }),
        Verification::Valid,
        1_001 + TTL,
    );
    assert!(node.db.entries.is_empty());
    assert_eq!(out, vec![Outgoing { to: 1, frame: Frame::Want(Want { interned_id: 5 }) }]);
    let out = node.handle_incoming(1, Frame::Message(msg), Verification::Valid, 1_002 + TTL);
    assert_eq!(out.len(), 1);
    assert_eq!(node.debug.next_seq, 2);
}
