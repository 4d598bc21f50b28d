use freeviewer::messages::{decode, encode, Message, MessageError, MessageHandler};

fn all_kinds() -> Vec<Message> {
    vec![
        MessageHandler::create_auth_request("123 456 789".to_string(), "pässword".to_string()),
        MessageHandler::create_auth_response(true, Some("token".to_string())),
        MessageHandler::create_auth_response(false, None),
        MessageHandler::create_heartbeat_at(1_700_000_000_123),
        MessageHandler::create_disconnect("bye".to_string()),
        MessageHandler::create_error(String::new()),
        MessageHandler::create_application_payload(vec![0, 1, 2, 255]),
    ]
}

#[test]
fn heartbeat_layout_is_little_endian() {
    let bytes = encode(&MessageHandler::create_heartbeat_at(0x0102030405060708));
    assert_eq!(bytes, vec![2, 0, 0, 0, 8, 7, 6, 5, 4, 3, 2, 1]);
}

#[test]
fn auth_request_layout() {
    let bytes = encode(&MessageHandler::create_auth_request("ab".to_string(), "c".to_string()));
    assert_eq!(
        bytes,
        vec![0, 0, 0, 0, 2, 0, 0, 0, 0, 0, 0, 0, b'a', b'b', 1, 0, 0, 0, 0, 0, 0, 0, b'c']
    );
}

#[test]
fn auth_response_layout() {
    assert_eq!(encode(&MessageHandler::create_auth_response(false, None)), vec![1, 0, 0, 0, 0, 0]);
    assert_eq!(
        encode(&MessageHandler::create_auth_response(true, Some("t".to_string()))),
        vec![1, 0, 0, 0, 1, 1, 1, 0, 0, 0, 0, 0, 0, 0, b't']
    );
}

#[test]
fn every_kind_round_trips() {
    for m in all_kinds() {
        let bytes = MessageHandler::serialize_message(&m).unwrap();
        let back = MessageHandler::deserialize_message(&bytes).unwrap();
        assert_eq!(format!("{:?}", back), format!("{:?}", m));
        assert_eq!(encode(&back), bytes);
    }
}

#[test]
fn trailing_bytes_are_refused() {
    for m in all_kinds() {
        let mut bytes = encode(&m);
        bytes.push(0);
        assert!(matches!(decode(&bytes), Err(MessageError::InvalidFormat)));
    }
}

#[test]
fn truncated_frames_are_refused() {
    for m in all_kinds() {
        let bytes = encode(&m);
        for cut in 0..bytes.len() {
            assert!(decode(&bytes[..cut]).is_err(), "cut at {}", cut);
        }
    }
}

#[test]
fn unknown_variant_is_unsupported() {
    assert!(matches!(decode(&[6, 0, 0, 0]), Err(MessageError::UnsupportedType)));
    assert!(matches!(decode(&[0xff, 0xff, 0xff, 0xff, 1]), Err(MessageError::UnsupportedType)));
    assert!(matches!(decode(&[]), Err(MessageError::InvalidFormat)));
}

#[test]
fn invalid_fields_are_refused() {
    assert!(matches!(decode(&[1, 0, 0, 0, 2, 0]), Err(MessageError::InvalidFormat)));
    assert!(matches!(decode(&[1, 0, 0, 0, 1, 2]), Err(MessageError::InvalidFormat)));
    let bad_utf8 = [3, 0, 0, 0, 1, 0, 0, 0, 0, 0, 0, 0, 0xff];
    assert!(matches!(decode(&bad_utf8), Err(MessageError::InvalidFormat)));
    let huge_len = [5, 0, 0, 0, 0xff, 0xff, 0xff, 0xff, 0xff, 0xff, 0xff, 0xff];
    assert!(matches!(decode(&huge_len), Err(MessageError::InvalidFormat)));
}

#[test]
fn text_is_decoded_from_utf8() {
    let m = decode(&[3, 0, 0, 0, 2, 0, 0, 0, 0, 0, 0, 0, 0xc3, 0xa9]).unwrap();
    match m {
        Message::Disconnect { reason } => assert_eq!(reason, "é"),
        other => panic!("unexpected {:?}", other),
    }
}

#[test]
fn frame_kinds_are_classified() {
    let kinds = all_kinds();
    assert!(kinds[0].is_auth_frame());
    assert!(kinds[1].is_auth_frame());
    assert!(!kinds[3].is_auth_frame());
    assert!(kinds[6].is_application_payload());
    assert!(!kinds[4].is_application_payload());
    assert!(matches!(MessageHandler::create_heartbeat(), Message::Heartbeat { timestamp } if timestamp > 0));
}
