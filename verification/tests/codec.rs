use turtlesim::HostConfig;
use turtlesim::Payload;
use turtlesim::Position;
use turtlesim::UserInput;
use turtlesim::wire::Frame;
use turtlesim::wire::Response;
use turtlesim::wire::decode_frame;
use turtlesim::wire::decode_response;
use turtlesim::wire::encode_frame;
use turtlesim::wire::encode_response;

#[test]
fn user_input_encodes_little_endian() {
    let v = UserInput { forward: 1, turn: 0x0102_0304 };
    assert_eq!(v.encode(), vec![1, 0, 0, 0, 4, 3, 2, 1]);
    assert_eq!(UserInput::tag(), 1);
}

#[test]
fn position_encodes_little_endian() {
    let v = Position { x: 0x0000_00ff, y: 0, yaw: 0x0102_0304 };
    assert_eq!(v.encode(), vec![0xff, 0, 0, 0, 0, 0, 0, 0, 4, 3, 2, 1]);
    assert_eq!(Position::tag(), 2);
}

#[test]
fn payload_decode_inverts_encode() {
    let v = UserInput { forward: (2.5f32).to_bits(), turn: (-1.0f32).to_bits() };
    assert_eq!(UserInput::decode(&v.encode()), Some(v));
    let p = Position { x: (1.5f32).to_bits(), y: (2.5f32).to_bits(), yaw: (90.0f32).to_bits() };
    assert_eq!(Position::decode(&p.encode()), Some(p));
}

#[test]
fn payload_decode_rejects_wrong_length() {
    assert_eq!(UserInput::decode(&[0; 7]), None);
    assert_eq!(UserInput::decode(&[0; 9]), None);
    assert_eq!(UserInput::decode(&[0; 12]), None);
    assert_eq!(Position::decode(&[0; 8]), None);
    assert_eq!(Position::decode(&[]), None);
}

#[test]
fn publish_frame_encodes_exactly() {
    let f = Frame::Publish { topic: b"ab".to_vec(), tag: 7, payload: vec![9, 8] };
    let bytes = encode_frame(&f);
    assert_eq!(bytes, vec![1, 2, 0, b'a', b'b', 7, 2, 0, 0, 0, 9, 8]);
    match decode_frame(&bytes) {
        Some(Frame::Publish { topic, tag, payload }) => {
            assert_eq!(topic, b"ab".to_vec());
            assert_eq!(tag, 7);
            assert_eq!(payload, vec![9, 8]);
        }
        _ => panic!("publish frame did not decode"),
    }
}

#[test]
fn request_frame_encodes_exactly() {
    let f = Frame::Request { topic: b"pos".to_vec() };
    let bytes = encode_frame(&f);
    assert_eq!(bytes, vec![2, 3, 0, b'p', b'o', b's']);
    match decode_frame(&bytes) {
        Some(Frame::Request { topic }) => assert_eq!(topic, b"pos".to_vec()),
        _ => panic!("request frame did not decode"),
    }
}

#[test]
fn frame_decoder_rejects_junk() {
    assert!(decode_frame(&[]).is_none());
    assert!(decode_frame(&[9, 0, 0]).is_none());
    // A publish frame whose payload length disagrees with the bytes.
    assert!(decode_frame(&[1, 1, 0, b'a', 7, 2, 0, 0, 0, 9]).is_none());
    // A request frame with trailing garbage.
    assert!(decode_frame(&[2, 1, 0, b'a', 0]).is_none());
}

#[test]
fn value_response_round_trips() {
    let r = Response::Value { tag: 2, timestamp: 5, payload: vec![1, 2, 3] };
    let bytes = encode_response(&r);
    assert_eq!(
        bytes,
        vec![0, 2, 5, 0, 0, 0, 0, 0, 0, 0, 3, 0, 0, 0, 1, 2, 3]
    );
    match decode_response(&bytes) {
        Some(Response::Value { tag, timestamp, payload }) => {
            assert_eq!((tag, timestamp, payload), (2, 5, vec![1, 2, 3]));
        }
        _ => panic!("value response did not decode"),
    }
}

#[test]
fn status_responses_round_trip() {
    for r in [
        Response::PublishOk,
        Response::ErrTopicNotFound,
        Response::ErrHostNotRunning,
        Response::ErrBadFrame,
    ] {
        let bytes = encode_response(&r);
        assert_eq!(bytes.len(), 1);
        let back = decode_response(&bytes).unwrap();
        assert_eq!(encode_response(&back), bytes);
    }
    assert!(decode_response(&[]).is_none());
    assert!(decode_response(&[5]).is_none());
    assert!(decode_response(&[1, 1]).is_none());
}

#[test]
fn host_answers_raw_frames() {
    let mut host = HostConfig::default().build();
    host.start().unwrap();
    // Bytes that are no frame get the bad-frame status byte back.
    assert_eq!(host.handle_frame(&[9, 9, 9]), vec![4]);
    // A publish frame for topic "a" with a one-byte payload is acknowledged.
    let publish = encode_frame(&Frame::Publish { topic: b"a".to_vec(), tag: 1, payload: vec![5] });
    assert_eq!(host.handle_frame(&publish), vec![1]);
    // The request answer carries tag, stamp, length and payload.
    let request = encode_frame(&Frame::Request { topic: b"a".to_vec() });
    assert_eq!(
        host.handle_frame(&request),
        vec![0, 1, 0, 0, 0, 0, 0, 0, 0, 0, 1, 0, 0, 0, 5]
    );
    // A stopped host answers every frame with the not-running status byte.
    host.stop().unwrap();
    assert_eq!(host.handle_frame(&request), vec![3]);
}

#[test]
fn builders_set_fields() {
    let v = UserInput::default().forward(3).turn(4);
    assert_eq!(v, UserInput { forward: 3, turn: 4 });
    assert_eq!(UserInput::default(), UserInput { forward: 0, turn: 0 });
    assert_eq!(Position::default(), Position { x: 0, y: 0, yaw: 0 });
}
