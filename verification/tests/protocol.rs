use drift::protocol::codec::{
    decode_data_frame_v2, encode_data_frame_v2, FRAME_TYPE_DATA_V2,
    classify_frame, decode_data_frame, decode_frame_type, encode_control_frame,
    encode_data_frame, FrameContent, FrameError, FRAME_TYPE_CONTROL, FRAME_TYPE_DATA,
};
use drift::protocol::messages::{
    default_destination, ControlMessage, Direction, CURRENT_PROTOCOL_VERSION,
    MIN_MULTI_FILE_VERSION, MIN_REQUEST_ID_VERSION,
};

fn samples() -> Vec<ControlMessage> {
    vec![
        ControlMessage::KeyExchange {
            public_key: "k".to_string(),
            protocol_version: Some(3),
        },
        ControlMessage::PlaintextMode {
            protocol_version: None,
        },
        ControlMessage::AuthChallenge {
            nonce: "n".to_string(),
        },
        ControlMessage::AuthResponse {
            proof: "p".to_string(),
        },
        ControlMessage::HandshakeComplete,
        ControlMessage::BrowseRequest {
            request_id: None,
            path: ".".to_string(),
        },
        ControlMessage::BrowseResponse {
            request_id: Some(1),
            hostname: "h".to_string(),
            cwd: "/".to_string(),
            entries: vec![],
        },
        ControlMessage::InfoRequest {
            request_id: Some(2),
        },
        ControlMessage::InfoResponse {
            request_id: None,
            hostname: "h".to_string(),
            root_dir: "/".to_string(),
        },
        ControlMessage::TransferRequest {
            id: 3,
            entries: vec![],
            direction: Direction::Push,
            destination_path: default_destination(),
            resume_hints: vec![],
        },
        ControlMessage::TransferAccepted {
            id: 4,
            resume_offsets: vec![("a".to_string(), 1)],
        },
        ControlMessage::TransferProgress {
            id: 5,
            path: "a".to_string(),
            bytes_done: 1,
            bytes_total: 2,
        },
        ControlMessage::TransferComplete {
            id: 6,
            total_bytes: 7,
        },
        ControlMessage::TransferFinalized { id: 8 },
        ControlMessage::TransferError {
            id: 9,
            error: "e".to_string(),
        },
        ControlMessage::ConnectionStatus { has_remote: true },
        ControlMessage::Ping { request_id: None },
        ControlMessage::Pong {
            request_id: Some(10),
        },
        ControlMessage::Error {
            request_id: Some(11),
            message: "m".to_string(),
        },
    ]
}

#[test]
fn requests_and_their_ids() {
    let expected_request = [
        false, false, false, false, false, true, false, true, false, true, false, false, false,
        false, false, false, true, false, false,
    ];
    let expected_request_id = [
        None,
        None,
        None,
        None,
        None,
        None,
        None,
        Some(2),
        None,
        Some(3),
        None,
        None,
        None,
        None,
        None,
        None,
        None,
        None,
        None,
    ];
    let expected_response_id = [
        None,
        None,
        None,
        None,
        None,
        None,
        Some(1),
        None,
        None,
        None,
        Some(4),
        None,
        None,
        None,
        Some(9),
        None,
        None,
        Some(10),
        Some(11),
    ];
    let all = samples();
    assert_eq!(all.len(), expected_request.len());
    for (i, m) in all.iter().enumerate() {
        assert_eq!(m.is_request(), expected_request[i], "message {i}");
        assert_eq!(m.request_id(), expected_request_id[i], "message {i}");
        assert_eq!(m.response_id(), expected_response_id[i], "message {i}");
        // No message is both a routed response and a request.
        assert!(!(m.response_id().is_some() && m.is_request()), "message {i}");
    }
}

#[test]
fn tagging_injects_missing_ids_only() {
    for (i, m) in samples().into_iter().enumerate() {
        let had = m.request_id();
        let was_request = m.is_request();
        let is_taggable = matches!(
            m,
            ControlMessage::BrowseRequest { .. }
                | ControlMessage::InfoRequest { .. }
                | ControlMessage::Ping { .. }
        );
        let tagged = m.clone().with_request_id(500);
        assert_eq!(tagged.is_request(), was_request, "message {i}");
        if is_taggable {
            assert_eq!(tagged.request_id(), had.or(Some(500)), "message {i}");
        } else {
            assert_eq!(format!("{tagged:?}"), format!("{m:?}"), "message {i}");
        }
        let twice = tagged.clone().with_request_id(600);
        assert_eq!(format!("{twice:?}"), format!("{tagged:?}"), "message {i}");
    }
}

#[test]
fn protocol_constants_and_defaults() {
    assert_eq!(CURRENT_PROTOCOL_VERSION, 3);
    assert_eq!(MIN_MULTI_FILE_VERSION, 2);
    assert_eq!(MIN_REQUEST_ID_VERSION, 3);
    assert_eq!(default_destination(), ".");
    assert_eq!(Direction::Push, Direction::Push);
    assert_ne!(Direction::Push, Direction::Pull);
}

#[test]
fn data_frames_have_the_documented_layout() {
    let id: u128 = 0x0011_2233_4455_6677_8899_aabb_ccdd_eeff;
    let frame = encode_data_frame(id, 0x0102_0304_0506_0708, b"xyz");
    assert_eq!(frame.len(), 1 + 16 + 8 + 3);
    assert_eq!(frame[0], FRAME_TYPE_DATA);
    assert_eq!(&frame[1..17], uuid::Uuid::from_u128(id).as_bytes());
    assert_eq!(&frame[17..25], &[1, 2, 3, 4, 5, 6, 7, 8]);
    assert_eq!(&frame[25..], b"xyz");

    let (t, payload) = decode_frame_type(&frame).expect("non-empty");
    assert_eq!(t, FRAME_TYPE_DATA);
    let (got_id, offset, chunk) = decode_data_frame(payload).expect("long enough");
    assert_eq!(got_id, id);
    assert_eq!(offset, 0x0102_0304_0506_0708);
    assert_eq!(chunk, b"xyz");
}

#[test]
fn control_frames_round_trip() {
    let json = br#"{"type":"Ping"}"#;
    let frame = encode_control_frame(json);
    assert_eq!(frame[0], FRAME_TYPE_CONTROL);
    let (t, payload) = decode_frame_type(&frame).unwrap();
    assert_eq!(t, FRAME_TYPE_CONTROL);
    assert_eq!(payload, json);
}

#[test]
fn malformed_frames_are_refused() {
    assert!(decode_frame_type(&[]).is_none());
    assert_eq!(decode_frame_type(&[7]), Some((7u8, &[][..])));
    assert!(decode_data_frame(&[0u8; 23]).is_none());
    let (id, offset, chunk) = decode_data_frame(&[0xffu8; 24]).unwrap();
    assert_eq!((id, offset, chunk.len()), (u128::MAX, u64::MAX, 0));
    let empty = encode_data_frame(0, 0, &[]);
    assert_eq!(empty, vec![0u8; 25]);
}

#[test]
fn frames_are_classified_by_type_byte() {
    let data = encode_data_frame(42, 7, b"abc");
    match classify_frame(&data) {
        Ok(FrameContent::Data {
            transfer_id,
            file_index: None,
            offset,
            chunk,
        }) => assert_eq!((transfer_id, offset, chunk), (42, 7, &b"abc"[..])),
        other => panic!("unexpected {other:?}"),
    }
    let control = encode_control_frame(b"{}");
    assert!(matches!(classify_frame(&control), Ok(FrameContent::Control(j)) if j == b"{}"));
    assert!(matches!(classify_frame(&[9, 1, 2]), Ok(FrameContent::Unknown(9))));
    assert!(matches!(classify_frame(&[]), Err(FrameError::Empty)));
    assert!(matches!(
        classify_frame(&[FRAME_TYPE_DATA, 1, 2, 3]),
        Err(FrameError::TruncatedData)
    ));
}

#[test]
fn multi_file_frames_round_trip() {
    let frame = encode_data_frame_v2(0x0102, 0x0a0b_0c0d, 0x1122, b"xy");
    assert_eq!(frame.len(), 1 + 16 + 4 + 8 + 2);
    assert_eq!(frame[0], FRAME_TYPE_DATA_V2);
    assert_eq!(&frame[1..17], uuid::Uuid::from_u128(0x0102).as_bytes());
    assert_eq!(&frame[17..21], &[0x0a, 0x0b, 0x0c, 0x0d]);
    assert_eq!(&frame[21..29], &[0, 0, 0, 0, 0, 0, 0x11, 0x22]);
    assert_eq!(&frame[29..], b"xy");
    let (t, payload) = decode_frame_type(&frame).unwrap();
    assert_eq!(t, FRAME_TYPE_DATA_V2);
    assert_eq!(
        decode_data_frame_v2(payload),
        Some((0x0102u128, 0x0a0b_0c0du32, 0x1122u64, &b"xy"[..]))
    );
    assert!(decode_data_frame_v2(&[0u8; 27]).is_none());
    match classify_frame(&frame) {
        Ok(FrameContent::Data {
            transfer_id,
            file_index: Some(index),
            offset,
            chunk,
        }) => assert_eq!((transfer_id, index, offset, chunk), (0x0102, 0x0a0b_0c0d, 0x1122, &b"xy"[..])),
        other => panic!("unexpected {other:?}"),
    }
    assert!(matches!(
        classify_frame(&[FRAME_TYPE_DATA_V2, 1, 2]),
        Err(FrameError::TruncatedData)
    ));
}
