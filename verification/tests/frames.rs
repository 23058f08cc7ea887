use lightning_core::frame::{
    topic_from_byte, topic_to_index, Advr, Frame, FrameError, Message, Topic, Want,
};

fn message(payload: Vec<u8>) -> Message {
    Message { topic: Topic::DistributedHashTable, origin: 0x0403_0201, signature: [7; 64], payload }
}

#[test]
fn topics_map_to_fixed_numbers() {
    assert_eq!(topic_to_index(Topic::Consensus), 0);
    assert_eq!(topic_to_index(Topic::DistributedHashTable), 1);
    assert_eq!(topic_to_index(Topic::Debug), 2);
    assert_eq!(topic_from_byte(0), Some(Topic::Consensus));
    assert_eq!(topic_from_byte(1), Some(Topic::DistributedHashTable));
    assert_eq!(topic_from_byte(2), Some(Topic::Debug));
    assert_eq!(topic_from_byte(3), None);
}

#[test]
fn advr_bytes() {
    let frame = Frame::Advr(Advr { interned_id: 0x1234, digest: [9; 32] });
    let mut expected = vec![0x01, 0x34, 0x12];
    expected.extend_from_slice(&[9; 32]);
    assert_eq!(frame.encode(), Ok(expected.clone()));
    assert_eq!(Frame::decode(&expected), Some(frame));
}

#[test]
fn want_bytes() {
    let frame = Frame::Want(Want { interned_id: 0xfffe });
    assert_eq!(frame.encode(), Ok(vec![0x02, 0xfe, 0xff]));
    assert_eq!(Frame::decode(&vec![0x02, 0xfe, 0xff]), Some(frame));
}

#[test]
fn message_bytes() {
    let frame = Frame::Message(message(vec![0xaa, 0xbb, 0xcc]));
    let mut expected = vec![0x03, 0x01, 0x01, 0x02, 0x03, 0x04];
    expected.extend_from_slice(&[7; 64]);
    expected.extend_from_slice(&[3, 0, 0, 0]);
    expected.extend_from_slice(&[0xaa, 0xbb, 0xcc]);
    assert_eq!(frame.encode(), Ok(expected.clone()));
    assert_eq!(Frame::decode(&expected), Some(frame));
}

#[test]
fn empty_payload_round_trips() {
    let frame = Frame::Message(message(vec![]));
    let bytes = frame.encode().unwrap();
    assert_eq!(bytes.len(), 74);
    assert_eq!(Frame::decode(&bytes), Some(frame));
}

#[test]
fn frames_round_trip() {
    let frames = vec![
        Frame::Advr(Advr { interned_id: 0, digest: [0; 32] }),
        Frame::Advr(Advr { interned_id: u16::MAX, digest: [255; 32] }),
        Frame::Want(Want { interned_id: 77 }),
        Frame::Message(Message {
            topic: Topic::Consensus,
            origin: u32::MAX,
            signature: [1; 64],
            payload: (0..=255u8).collect(),
        }),
        Frame::Message(Message {
            topic: Topic::Debug,
            origin: 0,
            signature: [0; 64],
            payload: vec![0; 1000],
        }),
    ];
    for frame in frames {
        let bytes = frame.encode().unwrap();
        assert_eq!(Frame::decode(&bytes), Some(frame));
    }
}

#[test]
fn bytes_that_spell_no_frame_are_refused() {
    assert_eq!(Frame::decode(&vec![]), None);
    assert_eq!(Frame::decode(&vec![0x00]), None);
    assert_eq!(Frame::decode(&vec![0x04, 0, 0]), None);
    // A request with a byte too few and with a byte too many.
    assert_eq!(Frame::decode(&vec![0x02, 0x01]), None);
    assert_eq!(Frame::decode(&vec![0x02, 0x01, 0x00, 0x00]), None);
    // An advertisement that is cut short.
    assert_eq!(Frame::decode(&vec![0x01; 34]), None);
    assert_eq!(Frame::decode(&vec![0x01; 36]), None);
}

#[test]
fn messages_with_wrong_topic_or_length_are_refused() {
    let good = Frame::Message(message(vec![1, 2, 3])).encode().unwrap();

    let mut bad_topic = good.clone();
    bad_topic[1] = 3;
    assert_eq!(Frame::decode(&bad_topic), None);

    let mut short = good.clone();
    short.pop();
    assert_eq!(Frame::decode(&short), None);

    let mut long = good.clone();
    long.push(0);
    assert_eq!(Frame::decode(&long), None);

    let mut wrong_length = good.clone();
    wrong_length[70] = 4;
    assert_eq!(Frame::decode(&wrong_length), None);

    assert_eq!(Frame::decode(&good[..73].to_vec()), None);
}

#[test]
fn payload_too_long_is_the_only_error() {
    // The error needs a payload of four gigabytes; its name is all that a
    // test of ordinary size can see of it.
    assert_eq!(FrameError::PayloadTooLong, FrameError::PayloadTooLong);
    assert!(Frame::Message(message(vec![0; 1 << 16])).encode().is_ok());
}
