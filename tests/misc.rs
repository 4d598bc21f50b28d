use freeviewer::capture::CaptureQuality;
use freeviewer::certificates::CertificateManager;
use freeviewer::client::{ClientError, FreeViewerClient, RemoteSession, SessionError};
use freeviewer::connection::ConnectionError;
use freeviewer::host::{FileServer, FreeViewerHost, HostError, InputHandler};
use freeviewer::messages::MessageHandler;
use freeviewer::protocol::{ConnectionState, FileInfo, ProtocolConfig};
use freeviewer::ui::{format_partner_id, ConnectionPanel, LogLevel, Settings, SettingsPanel, VideoQuality};

fn file(name: &str, dir: bool) -> FileInfo {
    FileInfo { name: name.to_string(), path: format!("/x/{}", name), size: 1, is_directory: dir, modified: 0 }
}

#[test]
fn capture_quality_levels() {
    assert_eq!(CaptureQuality::Low.compression_level(), 1);
    assert_eq!(CaptureQuality::Medium.compression_level(), 6);
    assert_eq!(CaptureQuality::High.compression_level(), 9);
    assert_eq!(CaptureQuality::Lossless.compression_level(), 0);
    assert_eq!(CaptureQuality::Low.frame_rate(), 15);
    assert_eq!(CaptureQuality::Medium.frame_rate(), 30);
    assert_eq!(CaptureQuality::High.frame_rate(), 60);
    assert_eq!(CaptureQuality::Lossless.frame_rate(), 30);
}

#[test]
fn partner_ids_are_grouped() {
    assert_eq!(format_partner_id(""), "");
    assert_eq!(format_partner_id("12"), "12");
    assert_eq!(format_partner_id("123"), "123");
    assert_eq!(format_partner_id("1234"), "123 4");
    assert_eq!(format_partner_id("123456"), "123 456");
    assert_eq!(format_partner_id("1234567"), "123 456 7");
    assert_eq!(format_partner_id("123 456 789"), "123 456 789");
    assert_eq!(format_partner_id("12a3-45é6789012"), "123 456 789");
}

#[test]
fn listing_puts_directories_first_then_names() {
    let mut server = FileServer::new();
    let entries = vec![file("b.txt", false), file("zeta", true), file("a.txt", false), file("alpha", true)];
    assert!(matches!(server.list_files(entries.clone()), Err(HostError::FileSystemError(_))));
    server.start().unwrap();
    assert!(server.is_running());
    let listed = server.list_files(entries).unwrap();
    let names: Vec<&str> = listed.iter().map(|f| f.name.as_str()).collect();
    assert_eq!(names, vec!["alpha", "zeta", "a.txt", "b.txt"]);
    server.stop().unwrap();
    assert!(!server.is_running());
}

#[test]
fn listing_orders_by_bytes() {
    let server = {
        let mut s = FileServer::new();
        s.start().unwrap();
        s
    };
    let listed = server.list_files(vec![file("b", false), file("B", false), file("ab", false), file("a", false)]).unwrap();
    let names: Vec<&str> = listed.iter().map(|f| f.name.as_str()).collect();
    assert_eq!(names, vec!["B", "a", "ab", "b"]);
}

#[test]
fn input_handler_accepts_input_only_when_active() {
    let mut h = InputHandler::new();
    assert!(!h.is_active());
    assert!(matches!(h.accept_input(), Err(HostError::InputError(ref m)) if m == "Input handler not active"));
    h.start().unwrap();
    assert!(h.accept_input().is_ok());
    h.stop().unwrap();
    assert!(!h.is_active());
}

#[test]
fn remote_session_lifecycle() {
    let mut s = RemoteSession::new("123 456 789".to_string());
    assert_eq!(s.partner_id(), "123 456 789");
    assert!(!s.is_active());
    let hb = MessageHandler::create_heartbeat_at(1);
    assert!(matches!(s.send_message(&hb), Err(SessionError::SessionNotActive)));
    s.start("token".to_string()).unwrap();
    assert!(s.is_active());
    assert!(s.send_message(&hb).is_ok());
    s.stop().unwrap();
    assert!(!s.is_active());
}

#[test]
fn connection_errors_map_to_client_errors() {
    assert!(matches!(ClientError::from(ConnectionError::NotConnected), ClientError::NotConnected));
    assert!(matches!(ClientError::from(ConnectionError::AuthenticationFailed), ClientError::AuthenticationFailed));
    assert!(matches!(ClientError::from(ConnectionError::Timeout), ClientError::NetworkError(ref m) if m == "Connection timeout"));
    assert!(matches!(ClientError::from(ConnectionError::NetworkError("x".to_string())), ClientError::NetworkError(ref m) if m == "x"));
    assert!(matches!(ClientError::from(ConnectionError::MalformedFrame), ClientError::ProtocolError(_)));
}

#[test]
fn default_settings() {
    let s = Settings::default();
    assert_eq!(s.video_quality, VideoQuality::Adaptive);
    assert!(s.enable_clipboard_sync && s.enable_file_transfer && s.encryption_enabled);
    assert!(!s.enable_sound && !s.auto_start_with_system);
    assert_eq!(s.relay_server, "Official");
    assert_eq!(s.log_level, LogLevel::Info);
    let panel = SettingsPanel::new();
    assert!(panel.settings().encryption_enabled);
    let _ = ConnectionPanel::new();
}

#[test]
fn default_protocol_config() {
    let c = ProtocolConfig::default();
    assert!(c.use_encryption);
    assert_eq!(c.heartbeat_interval, 5);
    assert_eq!(c.connection_timeout, 30);
    assert_eq!(c.heartbeat_miss_threshold, 3);
    assert_eq!(c.max_file_chunk_size, 65536);
}

#[test]
fn missing_identity_is_reported() {
    let m = CertificateManager::new("/nonexistent/identity/dir");
    assert!(m.cert_path().ends_with("cert.pem"));
    assert!(m.key_path().ends_with("key.pem"));
    assert!(!m.certificate_exists());
}

#[test]
fn client_connects_and_disconnects() {
    let mut c = FreeViewerClient::new();
    assert_eq!(c.connection_state(), ConnectionState::Disconnected);
    assert!(matches!(c.send_payload(vec![1]), Err(ClientError::NotConnected)));
    assert!(matches!(c.connect("1".to_string(), String::new()), Err(ClientError::AuthenticationFailed)));
    c.disconnect().unwrap();
    let request = c.connect("123".to_string(), "pw".to_string()).unwrap();
    assert!(request.is_auth_frame());
    assert_eq!(c.connection_state(), ConnectionState::Connecting);
    assert!(matches!(c.connect("123".to_string(), "pw".to_string()), Err(ClientError::ConnectionFailed(_))));
    c.disconnect().unwrap();
    assert_eq!(c.connection_state(), ConnectionState::Disconnected);
}

#[test]
fn host_starts_and_stops_once() {
    let mut h = FreeViewerHost::new("D12 345 678".to_string());
    assert_eq!(h.partner_id(), "D12 345 678");
    assert!(!h.is_running());
    assert!(matches!(h.stop(), Err(HostError::NotRunning)));
    h.start().unwrap();
    assert!(h.is_running());
    assert!(h.input_handler().is_active());
    assert!(h.file_server().is_running());
    assert!(matches!(h.start(), Err(HostError::AlreadyRunning)));
    h.stop().unwrap();
    assert!(!h.input_handler().is_active());
}

#[test]
fn daemon_ids_are_padded_and_grouped() {
    assert_eq!(freeviewer::ui::format_daemon_id(42, 123, 456), "D42 123 456");
    assert_eq!(freeviewer::ui::format_daemon_id(7, 5, 0), "D07 005 000");
    assert_eq!(freeviewer::ui::format_daemon_id(99, 999, 100), "D99 999 100");
}
