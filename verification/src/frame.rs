//! The frames of the gossip protocol and their bytes on the wire.
//!
//! A frame starts with one byte that tells its kind. An advertisement (1)
//! carries an interned id and a digest; a request (2) carries an interned id;
//! a message (3) carries its topic, the index of its origin, the origin's
//! signature, and its payload led by the payload's length in four bytes.
//! Numbers are little-endian.

use crate::hashing::Digest;
use crate::keys::{array_of, lemma_array_of, read_array, NodeIndex, SignatureBytes};
use crate::codec::{push_all, push_array};
use crate::wire::{
    le_bytes, le_value, lemma_le_bytes_len, lemma_le_roundtrip, lemma_le_value_bound,
    lemma_u16_fits, lemma_u32_fits, push_le, read_le,
};
use vstd::prelude::*;

verus! {

/// What a message is about.
#[derive(Clone, Copy, Debug, PartialEq, Eq)]
pub enum Topic {
    Consensus,
    DistributedHashTable,
    Debug,
}

/// "I have the message with this digest, and call it by this id."
#[derive(Clone, Copy, Debug, PartialEq, Eq)]
pub struct Advr {
    pub interned_id: u16,
    pub digest: Digest,
}

/// "Send me the message that you call by this id."
#[derive(Clone, Copy, Debug, PartialEq, Eq)]
pub struct Want {
    pub interned_id: u16,
}

/// A message, signed by the node that it comes from.
#[derive(Clone, Debug, PartialEq, Eq)]
pub struct Message {
    pub topic: Topic,
    /// Index of the node that the message comes from.
    pub origin: NodeIndex,
    /// The origin's signature over the digest of the message.
    pub signature: SignatureBytes,
    pub payload: Vec<u8>,
}

/// What peers send each other.
#[derive(Clone, Debug, PartialEq, Eq)]
pub enum Frame {
    Advr(Advr),
    Want(Want),
    Message(Message),
}

/// A message as a mathematical value.
pub struct MessageView {
    pub topic: Topic,
    pub origin: NodeIndex,
    pub signature: SignatureBytes,
    pub payload: Seq<u8>,
}

/// A frame as a mathematical value.
pub enum FrameView {
    Advr(Advr),
    Want(Want),
    Message(MessageView),
}

impl View for Message {
    type V = MessageView;

    open spec fn view(&self) -> MessageView {
        MessageView {
            topic: self.topic,
            origin: self.origin,
            signature: self.signature,
            payload: self.payload@,
        }
    }
}

impl View for Frame {
    type V = FrameView;

    open spec fn view(&self) -> FrameView {
        match self {
            Frame::Advr(a) => FrameView::Advr(*a),
            Frame::Want(w) => FrameView::Want(*w),
            Frame::Message(m) => FrameView::Message(m@),
        }
    }
}

/// Why a frame cannot be written.
#[derive(Clone, Copy, Debug, PartialEq, Eq)]
pub enum FrameError {
    /// The length of the payload does not fit in four bytes.
    PayloadTooLong,
}

/// Length of the bytes of a message before its payload.
pub const MESSAGE_HEADER: usize = 74;

/// The place of a topic among the topics: the number that stands for it on
/// the wire, and the index of its buffer.
pub open spec fn topic_index(topic: Topic) -> nat {
    match topic {
        Topic::Consensus => 0,
        Topic::DistributedHashTable => 1,
        Topic::Debug => 2,
    }
}

/// The topic that a byte stands for.
pub open spec fn topic_of(b: u8) -> Option<Topic> {
    if b == 0 {
        Some(Topic::Consensus)
    } else if b == 1 {
        Some(Topic::DistributedHashTable)
    } else if b == 2 {
        Some(Topic::Debug)
    } else {
        None
    }
}

/// The bytes of a frame.
pub open spec fn frame_bytes(f: FrameView) -> Seq<u8> {
    match f {
        FrameView::Advr(a) => seq![1u8].add(le_bytes(a.interned_id as nat, 2)).add(a.digest@),
        FrameView::Want(w) => seq![2u8].add(le_bytes(w.interned_id as nat, 2)),
        FrameView::Message(m) => seq![3u8, topic_index(m.topic) as u8].add(
            le_bytes(m.origin as nat, 4),
        ).add(m.signature@).add(le_bytes(m.payload.len(), 4)).add(m.payload),
    }
}

/// Whether a frame can be written: the length of a payload fits in four
/// bytes.
pub open spec fn writable(f: FrameView) -> bool {
    f matches FrameView::Message(m) ==> m.payload.len() <= 0xffff_ffff
}

/// The frame that bytes spell; none where they spell no frame. The bytes
/// have to be those of the frame and no more.
pub open spec fn parse_frame(bytes: Seq<u8>) -> Option<FrameView> {
    if bytes.len() == 0 {
        None
    } else if bytes[0] == 1 {
        if bytes.len() != 35 {
            None
        } else {
            Some(
                FrameView::Advr(
                    Advr {
                        interned_id: le_value(bytes.subrange(1, 3)) as u16,
                        digest: array_of::<32>(bytes.subrange(3, 35)),
                    },
                ),
            )
        }
    } else if bytes[0] == 2 {
        if bytes.len() != 3 {
            None
        } else {
            Some(FrameView::Want(Want { interned_id: le_value(bytes.subrange(1, 3)) as u16 }))
        }
    } else if bytes[0] == 3 {
        if bytes.len() < MESSAGE_HEADER {
            None
        } else {
            match topic_of(bytes[1]) {
                None => None,
                Some(topic) => if bytes.len() != MESSAGE_HEADER + le_value(
                    bytes.subrange(70, 74),
                ) {
                    None
                } else {
                    Some(
                        FrameView::Message(
                            MessageView {
                                topic,
                                origin: le_value(bytes.subrange(2, 6)) as u32,
                                signature: array_of::<64>(bytes.subrange(6, 70)),
                                payload: bytes.subrange(74, bytes.len() as int),
                            },
                        ),
                    )
                },
            }
        }
    } else {
        None
    }
}

/// Reading what was written gives the frame again: the bytes of a frame
/// spell that frame and no other.
pub proof fn lemma_frame_roundtrip(f: FrameView)
    requires
        writable(f),
    ensures
        parse_frame(frame_bytes(f)) == Some(f),
{
    let bytes = frame_bytes(f);
    match f {
        FrameView::Advr(a) => {
            lemma_le_bytes_len(a.interned_id as nat, 2);
            lemma_u16_fits(a.interned_id);
            lemma_le_roundtrip(a.interned_id as nat, 2);
            assert(bytes.subrange(1, 3) =~= le_bytes(a.interned_id as nat, 2));
            assert(bytes.subrange(3, 35) =~= a.digest@);
            lemma_array_of(a.digest);
        },
        FrameView::Want(w) => {
            lemma_le_bytes_len(w.interned_id as nat, 2);
            lemma_u16_fits(w.interned_id);
            lemma_le_roundtrip(w.interned_id as nat, 2);
            assert(bytes.subrange(1, 3) =~= le_bytes(w.interned_id as nat, 2));
        },
        FrameView::Message(m) => {
            lemma_le_bytes_len(m.origin as nat, 4);
            lemma_le_bytes_len(m.payload.len(), 4);
            lemma_u32_fits(m.origin);
            lemma_u32_fits(m.payload.len() as u32);
            lemma_le_roundtrip(m.origin as nat, 4);
            lemma_le_roundtrip(m.payload.len(), 4);
            assert(bytes.subrange(2, 6) =~= le_bytes(m.origin as nat, 4));
            assert(bytes.subrange(6, 70) =~= m.signature@);
            assert(bytes.subrange(70, 74) =~= le_bytes(m.payload.len(), 4));
            assert(bytes.subrange(74, bytes.len() as int) =~= m.payload);
            assert(bytes[1] == topic_index(m.topic) as u8);
            lemma_array_of(m.signature);
        },
    }
}

/// Maps each topic to the index of its buffer.
pub fn topic_to_index(topic: Topic) -> (index: usize)
    ensures
        index == topic_index(topic),
        index < 3,
{
    match topic {
        Topic::Consensus => 0,
        Topic::DistributedHashTable => 1,
        Topic::Debug => 2,
    }
}

/// Reads the topic that a byte stands for.
pub fn topic_from_byte(b: u8) -> (topic: Option<Topic>)
    ensures
        topic == topic_of(b),
{
    if b == 0 {
        Some(Topic::Consensus)
    } else if b == 1 {
        Some(Topic::DistributedHashTable)
    } else if b == 2 {
        Some(Topic::Debug)
    } else {
        None
    }
}

impl Frame {
    /// Writes the bytes of the frame.
    pub fn encode(&self) -> (written: Result<Vec<u8>, FrameError>)
        ensures
            match written {
                Ok(bytes) => writable(self@) && bytes@ == frame_bytes(self@),
                Err(e) => !writable(self@) && e == FrameError::PayloadTooLong,
            },
    {
        let mut bytes: Vec<u8> = Vec::new();
        match self {
            Frame::Advr(a) => {
                bytes.push(1);
                push_le(&mut bytes, a.interned_id as u64, 2);
                push_array(&mut bytes, &a.digest);
                assert(bytes@ =~= frame_bytes(self@));
            },
            Frame::Want(w) => {
                bytes.push(2);
                push_le(&mut bytes, w.interned_id as u64, 2);
                assert(bytes@ =~= frame_bytes(self@));
            },
            Frame::Message(m) => {
                if m.payload.len() > 0xffff_ffff {
                    return Err(FrameError::PayloadTooLong);
                }
                bytes.push(3);
                bytes.push(topic_to_index(m.topic) as u8);
                push_le(&mut bytes, m.origin as u64, 4);
                push_array(&mut bytes, &m.signature);
                push_le(&mut bytes, m.payload.len() as u64, 4);
                push_all(&mut bytes, &m.payload);
                assert(bytes@ =~= frame_bytes(self@));
            },
        }
        Ok(bytes)
    }

    /// Reads a frame from bytes that hold one frame and nothing else.
    pub fn decode(bytes: &Vec<u8>) -> (frame: Option<Frame>)
        ensures
            match frame {
                Some(f) => parse_frame(bytes@) == Some(f@),
                None => parse_frame(bytes@) is None,
            },
    {
        if bytes.len() == 0 {
            return None;
        }
        let kind: u8 = bytes[0];
        if kind == 1 {
            if bytes.len() != 35 {
                return None;
            }
            proof {
                lemma_le_value_bound(bytes@.subrange(1, 3));
            }
            let id = read_le(bytes, 1, 2) as u16;
            let digest: Digest = read_array::<32>(bytes, 3);
            Some(Frame::Advr(Advr { interned_id: id, digest }))
        } else if kind == 2 {
            if bytes.len() != 3 {
                return None;
            }
            proof {
                lemma_le_value_bound(bytes@.subrange(1, 3));
            }
            let id = read_le(bytes, 1, 2) as u16;
            Some(Frame::Want(Want { interned_id: id }))
        } else if kind == 3 {
            if bytes.len() < MESSAGE_HEADER {
                return None;
            }
            let topic = match topic_from_byte(bytes[1]) {
                Some(t) => t,
                None => {
                    return None;
                },
            };
            proof {
                lemma_le_value_bound(bytes@.subrange(2, 6));
                lemma_le_value_bound(bytes@.subrange(70, 74));
            }
            let length = read_le(bytes, 70, 4);
            if (bytes.len() - MESSAGE_HEADER) as u64 != length {
                return None;
            }
            let origin = read_le(bytes, 2, 4) as u32;
            let signature: SignatureBytes = read_array::<64>(bytes, 6);
            let mut payload: Vec<u8> = Vec::new();
            let mut i: usize = MESSAGE_HEADER;
            while i < bytes.len()
                invariant
                    MESSAGE_HEADER <= i <= bytes.len(),
                    payload@ == bytes@.subrange(MESSAGE_HEADER as int, i as int),
                decreases bytes.len() - i,
            {
                payload.push(bytes[i]);
                assert(payload@ =~= bytes@.subrange(MESSAGE_HEADER as int, i + 1));
                i += 1;
            }
            Some(Frame::Message(Message { topic, origin, signature, payload }))
        } else {
            None
        }
    }
}

} // verus!
