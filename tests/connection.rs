use freeviewer::connection::{ConnectionAction, ConnectionError, ConnectionEvent, ConnectionManager};
use freeviewer::messages::{decode, encode, Message, MessageHandler};
use freeviewer::protocol::{ConnectionState, ProtocolConfig};

const KEY: [u8; 32] = [0x42; 32];

fn connected(now: u64) -> ConnectionManager {
    let mut c = ConnectionManager::new();
    assert_eq!(c.handle_event(ConnectionEvent::ConnectRequested, now), ConnectionAction::Nothing);
    assert_eq!(c.handle_event(ConnectionEvent::AuthRequestSent, now), ConnectionAction::Nothing);
    assert_eq!(c.handle_event(ConnectionEvent::AuthSucceeded { key: KEY }, now), ConnectionAction::Nothing);
    assert_eq!(c.state(), ConnectionState::Connected);
    c
}

#[test]
fn encrypted_heartbeat_does_not_decode_without_decryption() {
    let sender = connected(0);
    let mut receiver = connected(0);
    let heartbeat = MessageHandler::create_heartbeat_at(77);
    let frame = sender.send_message(&heartbeat).unwrap();
    assert_ne!(frame, encode(&heartbeat));
    assert!(decode(&frame).is_err());
    assert!(MessageHandler::deserialize_message(&frame).is_err());
    let got = receiver.receive_message(&frame, 5).unwrap().unwrap();
    assert!(matches!(got, Message::Heartbeat { timestamp: 77 }));
    assert_eq!(receiver.state(), ConnectionState::Connected);
}

#[test]
fn plaintext_lifecycle_frame_is_rejected_once_encrypted() {
    let mut receiver = connected(0);
    let forged = encode(&MessageHandler::create_disconnect("forged".to_string()));
    assert!(matches!(receiver.receive_message(&forged, 1), Err(ConnectionError::DecryptionFailed)));
    assert!(matches!(receiver.state(), ConnectionState::Error(_)));
    assert_eq!(receiver.handle_event(ConnectionEvent::Tick, 2), ConnectionAction::Nothing);
    assert_eq!(receiver.state(), ConnectionState::Disconnected);
}

#[test]
fn auth_timeout_fails_then_disconnects_releasing_once() {
    let mut c = ConnectionManager::new();
    c.handle_event(ConnectionEvent::ConnectRequested, 0);
    c.handle_event(ConnectionEvent::AuthRequestSent, 0);
    assert_eq!(c.state(), ConnectionState::Authenticating);
    assert_eq!(c.handle_event(ConnectionEvent::Tick, 29), ConnectionAction::Nothing);
    assert_eq!(c.state(), ConnectionState::Authenticating);
    let mut teardowns = 0;
    if c.handle_event(ConnectionEvent::Tick, 30) == ConnectionAction::TearDown {
        teardowns += 1;
    }
    assert_eq!(c.state(), ConnectionState::Error("authentication timed out".to_string()));
    for t in 31..40 {
        if c.handle_event(ConnectionEvent::Tick, t) == ConnectionAction::TearDown {
            teardowns += 1;
        }
    }
    if c.handle_event(ConnectionEvent::TransportFailed { reason: "late".to_string() }, 41)
        == ConnectionAction::TearDown
    {
        teardowns += 1;
    }
    assert_eq!(teardowns, 1);
    c.handle_event(ConnectionEvent::Tick, 42);
    assert_eq!(c.state(), ConnectionState::Disconnected);
}

#[test]
fn late_auth_response_after_timeout_is_ignored() {
    let mut c = ConnectionManager::new();
    c.handle_event(ConnectionEvent::ConnectRequested, 0);
    c.handle_event(ConnectionEvent::AuthRequestSent, 0);
    c.handle_event(ConnectionEvent::Tick, 31);
    c.handle_event(ConnectionEvent::Tick, 32);
    assert_eq!(c.handle_event(ConnectionEvent::AuthSucceeded { key: KEY }, 33), ConnectionAction::Nothing);
    assert_eq!(c.state(), ConnectionState::Disconnected);
}

#[test]
fn auth_failure_goes_to_error_with_reason() {
    let mut c = ConnectionManager::new();
    c.handle_event(ConnectionEvent::ConnectRequested, 0);
    c.handle_event(ConnectionEvent::AuthRequestSent, 0);
    let a = c.handle_event(ConnectionEvent::AuthFailed { reason: "denied".to_string() }, 1);
    assert_eq!(a, ConnectionAction::TearDown);
    assert_eq!(c.state(), ConnectionState::Error("denied".to_string()));
}

#[test]
fn heartbeat_silence_beyond_three_intervals_tears_down() {
    let mut c = connected(100);
    let peer = connected(100);
    assert_eq!(c.handle_event(ConnectionEvent::Tick, 115), ConnectionAction::Nothing);
    let hb = peer.send_message(&MessageHandler::create_heartbeat_at(1)).unwrap();
    c.receive_message(&hb, 115).unwrap();
    assert_eq!(c.handle_event(ConnectionEvent::Tick, 130), ConnectionAction::Nothing);
    assert_eq!(c.handle_event(ConnectionEvent::Tick, 131), ConnectionAction::TearDown);
    assert_eq!(c.state(), ConnectionState::Error("heartbeat timeout".to_string()));
}

#[test]
fn application_payload_only_when_connected() {
    let mut c = ConnectionManager::new();
    let payload = MessageHandler::create_application_payload(vec![1, 2, 3]);
    assert!(matches!(c.send_message(&payload), Err(ConnectionError::NotConnected)));
    c.handle_event(ConnectionEvent::ConnectRequested, 0);
    c.handle_event(ConnectionEvent::AuthRequestSent, 0);
    assert!(matches!(c.send_message(&payload), Err(ConnectionError::NotConnected)));
    assert_eq!(c.receive_message(&encode(&payload), 1).unwrap().is_none(), true);
    assert_eq!(c.state(), ConnectionState::Authenticating);
    let response = MessageHandler::create_auth_response(true, Some("t".to_string()));
    assert_eq!(c.send_message(&response).unwrap(), encode(&response));
    assert!(c.receive_message(&encode(&response), 1).unwrap().is_some());
}

#[test]
fn malformed_handshake_frame_fails_the_connection() {
    let mut c = ConnectionManager::new();
    c.handle_event(ConnectionEvent::ConnectRequested, 0);
    assert!(matches!(c.receive_message(&[9, 9], 0), Err(ConnectionError::MalformedFrame)));
    assert!(matches!(c.state(), ConnectionState::Error(_)));
}

#[test]
fn disconnected_connection_reads_nothing() {
    let mut c = ConnectionManager::new();
    let hb = encode(&MessageHandler::create_heartbeat_at(1));
    assert!(matches!(c.receive_message(&hb, 0), Err(ConnectionError::NotConnected)));
}

#[test]
fn peer_disconnect_closes_the_connection() {
    let mut c = connected(0);
    let peer = connected(0);
    let bye = peer.send_message(&MessageHandler::create_disconnect("done".to_string())).unwrap();
    let got = c.receive_message(&bye, 1).unwrap().unwrap();
    assert!(matches!(got, Message::Disconnect { .. }));
    assert_eq!(c.state(), ConnectionState::Disconnected);
    assert_eq!(c.handle_event(ConnectionEvent::Tick, 1000), ConnectionAction::Nothing);
}

#[test]
fn local_disconnect_request_tears_down() {
    let mut c = connected(0);
    assert_eq!(c.handle_event(ConnectionEvent::DisconnectRequested, 1), ConnectionAction::TearDown);
    assert_eq!(c.state(), ConnectionState::Disconnected);
    assert_eq!(c.handle_event(ConnectionEvent::DisconnectRequested, 2), ConnectionAction::Nothing);
}

#[test]
fn unencrypted_configuration_sends_plain_frames() {
    let mut config = ProtocolConfig::default();
    config.use_encryption = false;
    let mut c = ConnectionManager::with_config(config);
    assert!(!c.is_encrypted());
    c.handle_event(ConnectionEvent::ConnectRequested, 0);
    c.handle_event(ConnectionEvent::AuthRequestSent, 0);
    c.handle_event(ConnectionEvent::AuthSucceeded { key: KEY }, 0);
    let hb = MessageHandler::create_heartbeat_at(5);
    assert_eq!(c.send_message(&hb).unwrap(), encode(&hb));
}

#[test]
fn connect_builds_the_auth_request() {
    let mut c = ConnectionManager::new();
    let m = c.connect("123456789".to_string(), "pw".to_string()).unwrap();
    assert!(matches!(m, Message::AuthRequest { ref id, ref password } if id == "123456789" && password == "pw"));
    assert_eq!(c.state(), ConnectionState::Connecting);
    assert!(matches!(c.connect("x".to_string(), "pw".to_string()), Err(ConnectionError::AlreadyConnected)));
    c.disconnect().unwrap();
    assert_eq!(c.state(), ConnectionState::Disconnected);
}

#[test]
fn connect_with_empty_password_fails() {
    let mut c = ConnectionManager::new();
    let r = c.connect("123456789".to_string(), String::new());
    assert!(matches!(r, Err(ConnectionError::AuthenticationFailed)));
    assert_eq!(c.state(), ConnectionState::Disconnected);
    assert!(c.connect("123456789".to_string(), "pw".to_string()).is_ok());
}

#[test]
fn failed_connection_can_be_retried() {
    let mut c = connected(0);
    c.handle_event(ConnectionEvent::TransportFailed { reason: "reset".to_string() }, 1);
    assert!(matches!(c.state(), ConnectionState::Error(_)));
    assert!(c.connect("123".to_string(), "pw".to_string()).is_ok());
    assert_eq!(c.state(), ConnectionState::Connecting);
}

#[test]
fn transport_failure_from_any_state() {
    let mut c = connected(0);
    let a = c.handle_event(ConnectionEvent::TransportFailed { reason: "reset".to_string() }, 1);
    assert_eq!(a, ConnectionAction::TearDown);
    assert_eq!(c.state(), ConnectionState::Error("reset".to_string()));
}

#[test]
fn application_payload_round_trips_between_connected_peers() {
    let sender = connected(0);
    let mut receiver = connected(0);
    let frame = sender.send_application_payload(vec![10, 20, 30]).unwrap();
    let got = receiver.receive_message(&frame, 1).unwrap().unwrap();
    assert!(matches!(got, Message::ApplicationPayload { ref data } if data == &vec![10, 20, 30]));
    let idle = ConnectionManager::new();
    assert!(matches!(idle.send_application_payload(vec![1]), Err(ConnectionError::NotConnected)));
}
