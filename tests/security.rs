use freeviewer::encryption::{EncryptionError, ProtocolEncryption};
use freeviewer::security::{constant_time_eq, SecurityError, SecurityManager, DECRYPT_FAILURE, NONCE_LEN, TAG_LEN};

fn keyed(key: [u8; 32]) -> SecurityManager {
    let mut s = SecurityManager::new();
    s.init_encryption(&key).unwrap();
    s
}

#[test]
fn decrypt_inverts_encrypt() {
    let s = keyed([7u8; 32]);
    for text in [&b""[..], b"a", b"hello, remote host", &[0u8; 1000][..]] {
        let c = s.encrypt(text).unwrap();
        assert_eq!(c.len(), NONCE_LEN + text.len() + TAG_LEN);
        assert_eq!(s.decrypt(&c).unwrap(), text);
    }
}

#[test]
fn ciphertext_differs_from_plaintext() {
    let s = keyed([1u8; 32]);
    let text = b"attack at dawn, attack at dawn";
    let c = s.encrypt(text).unwrap();
    assert_ne!(&c[NONCE_LEN..NONCE_LEN + text.len()], &text[..]);
}

#[test]
fn encrypting_twice_gives_different_frames() {
    let s = keyed([3u8; 32]);
    let a = s.encrypt(b"same").unwrap();
    let b = s.encrypt(b"same").unwrap();
    assert_ne!(a, b);
    assert_ne!(a[..NONCE_LEN], b[..NONCE_LEN]);
}

#[test]
fn any_flipped_byte_is_detected() {
    let s = keyed([9u8; 32]);
    let c = s.encrypt(b"integrity matters").unwrap();
    for i in 0..c.len() {
        let mut t = c.clone();
        t[i] ^= 0x01;
        assert!(matches!(s.decrypt(&t), Err(SecurityError::DecryptionFailed(_))), "byte {}", i);
    }
}

#[test]
fn wrong_key_gives_the_same_error_as_tampering() {
    let c = keyed([1u8; 32]).encrypt(b"x").unwrap();
    let wrong_key = match keyed([2u8; 32]).decrypt(&c) {
        Err(SecurityError::DecryptionFailed(m)) => m,
        other => panic!("unexpected {:?}", other),
    };
    let mut t = c.clone();
    t[20] ^= 1;
    let tampered = match keyed([1u8; 32]).decrypt(&t) {
        Err(SecurityError::DecryptionFailed(m)) => m,
        other => panic!("unexpected {:?}", other),
    };
    assert_eq!(wrong_key, tampered);
    assert_eq!(wrong_key, DECRYPT_FAILURE);
}

#[test]
fn short_input_is_invalid() {
    let s = keyed([0u8; 32]);
    assert!(matches!(s.decrypt(&[0u8; 11]), Err(SecurityError::InvalidData)));
    assert!(matches!(s.decrypt(&[0u8; 12]), Err(SecurityError::DecryptionFailed(_))));
}

#[test]
fn uninitialised_context_refuses_both_ways() {
    let s = SecurityManager::new();
    assert!(!s.is_initialized());
    assert!(matches!(s.encrypt(b"x"), Err(SecurityError::NotInitialized)));
    assert!(matches!(s.decrypt(&[0u8; 40]), Err(SecurityError::NotInitialized)));
}

#[test]
fn cleared_key_refuses() {
    let mut s = keyed([5u8; 32]);
    s.clear_key();
    assert!(matches!(s.encrypt(b"x"), Err(SecurityError::NotInitialized)));
}

#[test]
fn generated_tokens_validate() {
    let s = SecurityManager::new();
    let t = s.generate_session_token();
    assert_eq!(t.len(), 64);
    assert!(t.bytes().all(|c| c.is_ascii_hexdigit() && !c.is_ascii_uppercase()));
    assert!(s.validate_session_token(&t));
    assert_ne!(t, s.generate_session_token());
}

#[test]
fn token_shape_is_checked() {
    let s = SecurityManager::new();
    assert!(s.validate_session_token(&"A".repeat(64)));
    assert!(!s.validate_session_token(&"a".repeat(63)));
    assert!(!s.validate_session_token(&"g".repeat(64)));
    assert!(!s.validate_session_token(""));
    assert!(!s.validate_session_token(&format!("{}é", "a".repeat(62))));
}

#[test]
fn password_hash_is_sha256_of_password_then_salt() {
    let s = SecurityManager::new();
    let h = s.hash_password("ab", b"c");
    let expected = "ba7816bf8f01cfea414140de5dae2223b00361a396177a9cb410ff61f20015ad";
    let hex: String = h.iter().map(|b| format!("{:02x}", b)).collect();
    assert_eq!(hex, expected);
    assert!(s.verify_password("ab", &h, b"c"));
    assert!(!s.verify_password("ab", &h, b"d"));
    assert!(s.verify_password("abc", &h, b""));
    assert!(!s.verify_password("abd", &h, b""));
}

#[test]
fn keys_and_salts_are_random() {
    let s = SecurityManager::new();
    assert_ne!(s.generate_key(), s.generate_key());
    assert_ne!(s.generate_salt(), s.generate_salt());
}

#[test]
fn constant_time_comparison() {
    assert!(constant_time_eq(b"", b""));
    assert!(constant_time_eq(b"abc", b"abc"));
    assert!(!constant_time_eq(b"abc", b"abd"));
    assert!(!constant_time_eq(b"abc", b"ab"));
}

#[test]
fn disabled_protocol_encryption_passes_through() {
    let mut p = ProtocolEncryption::new();
    p.enable(false);
    assert!(!p.is_enabled());
    assert_eq!(p.encrypt_data(b"plain").unwrap(), b"plain");
    assert_eq!(p.decrypt_data(b"plain").unwrap(), b"plain");
}

#[test]
fn enabled_protocol_encryption_needs_a_key() {
    let mut p = ProtocolEncryption::new();
    assert!(p.is_enabled());
    assert!(matches!(p.encrypt_data(b"x"), Err(EncryptionError::NotInitialized)));
    assert!(matches!(p.decrypt_data(b"x"), Err(EncryptionError::NotInitialized)));
    p.init_encryption(&[4u8; 32]).unwrap();
    let c = p.encrypt_data(b"x").unwrap();
    assert_eq!(p.decrypt_data(&c).unwrap(), b"x");
    let mut t = c.clone();
    t[0] ^= 0x80;
    assert!(matches!(p.decrypt_data(&t), Err(EncryptionError::DecryptFailed(_))));
}
