use freeviewer::auth::{access_code, AuthError, AuthManager, ACCESS_CODE_TTL_SECS, SESSION_TTL_SECS};

fn manager_with_alice() -> AuthManager {
    let mut m = AuthManager::new();
    m.create_user_at("alice".to_string(), "correct horse".to_string(), 100).unwrap();
    m
}

#[test]
fn signup_then_login_is_accepted_until_expiry() {
    let mut m = manager_with_alice();
    let token = m.authenticate_at("alice".to_string(), "correct horse".to_string(), 200).unwrap();
    assert_eq!(token.len(), 64);
    let s = m.validate_session_at(&token, 200).unwrap();
    assert_eq!(s.user_id, "alice");
    assert_eq!(s.token, token);
    assert_eq!(s.created_at, 200);
    assert_eq!(s.expires_at, 200 + SESSION_TTL_SECS);
    assert!(m.validate_session_at(&token, 200 + SESSION_TTL_SECS - 1).is_ok());
    assert!(matches!(
        m.validate_session_at(&token, 200 + SESSION_TTL_SECS),
        Err(AuthError::SessionExpired)
    ));
}

#[test]
fn login_refusals_share_one_error() {
    let mut m = manager_with_alice();
    let unknown = m.authenticate_at("bob".to_string(), "correct horse".to_string(), 200);
    let wrong = m.authenticate_at("alice".to_string(), "wrong".to_string(), 200);
    let empty = m.authenticate_at("alice".to_string(), String::new(), 200);
    assert!(matches!(unknown, Err(AuthError::InvalidCredentials)));
    assert!(matches!(wrong, Err(AuthError::InvalidCredentials)));
    assert!(matches!(empty, Err(AuthError::InvalidCredentials)));
}

#[test]
fn identity_match_is_case_sensitive() {
    let mut m = manager_with_alice();
    let r = m.authenticate_at("Alice".to_string(), "correct horse".to_string(), 200);
    assert!(matches!(r, Err(AuthError::InvalidCredentials)));
    assert!(m.create_user_at("Alice".to_string(), "x".to_string(), 300).is_ok());
}

#[test]
fn duplicate_signup_is_refused() {
    let mut m = manager_with_alice();
    let r = m.create_user_at("alice".to_string(), "other".to_string(), 300);
    assert!(matches!(r, Err(AuthError::UserExists)));
    assert!(m.authenticate_at("alice".to_string(), "correct horse".to_string(), 301).is_ok());
    assert!(m.authenticate_at("alice".to_string(), "other".to_string(), 302).is_err());
}

#[test]
fn each_login_issues_its_own_session() {
    let mut m = manager_with_alice();
    let a = m.authenticate_at("alice".to_string(), "correct horse".to_string(), 200).unwrap();
    let b = m.authenticate_at("alice".to_string(), "correct horse".to_string(), 250).unwrap();
    assert_ne!(a, b);
    assert!(m.validate_session_at(&a, 260).is_ok());
    assert!(m.validate_session_at(&b, 260).is_ok());
}

#[test]
fn expired_session_is_refused_while_active() {
    let mut m = AuthManager::new();
    let code = m.generate_access_code_at("u1".to_string(), 0).unwrap();
    let s = m.validate_session_at(&code, 0).unwrap();
    assert!(s.is_active);
    assert!(matches!(
        m.validate_session_at(&code, ACCESS_CODE_TTL_SECS),
        Err(AuthError::SessionExpired)
    ));
}

#[test]
fn access_code_expires_after_five_minutes() {
    let mut m = AuthManager::new();
    let code = m.generate_access_code_at("u1".to_string(), 1_000).unwrap();
    assert_eq!(code.len(), 6);
    assert!(code.bytes().all(|c| c.is_ascii_digit()));
    let s = m.validate_session_at(&code, 1_000).unwrap();
    assert_eq!(s.user_id, "u1");
    assert_eq!(s.expires_at, 1_300);
    assert!(matches!(m.validate_session_at(&code, 1_301), Err(AuthError::SessionExpired)));
}

#[test]
fn revoked_session_is_inactive() {
    let mut m = manager_with_alice();
    let token = m.authenticate_at("alice".to_string(), "correct horse".to_string(), 200).unwrap();
    m.revoke_session(&token).unwrap();
    assert!(matches!(m.validate_session_at(&token, 201), Err(AuthError::SessionInactive)));
    assert!(m.revoke_session("no such token").is_ok());
}

#[test]
fn unknown_token_is_invalid() {
    let m = AuthManager::new();
    assert!(matches!(m.validate_session_at("nope", 0), Err(AuthError::InvalidSession)));
}

#[test]
fn sweep_removes_exactly_inactive_and_expired() {
    let mut m = manager_with_alice();
    let code = m.generate_access_code_at("u1".to_string(), 0).unwrap();
    let kept = m.authenticate_at("alice".to_string(), "correct horse".to_string(), 0).unwrap();
    let revoked = m.authenticate_at("alice".to_string(), "correct horse".to_string(), 0).unwrap();
    m.revoke_session(&revoked).unwrap();
    m.cleanup_expired_sessions_at(400);
    assert!(matches!(m.validate_session_at(&code, 0), Err(AuthError::InvalidSession)));
    assert!(matches!(m.validate_session_at(&revoked, 0), Err(AuthError::InvalidSession)));
    let s = m.validate_session_at(&kept, 400).unwrap();
    assert_eq!(s.expires_at, SESSION_TTL_SECS);
    m.cleanup_expired_sessions_at(400);
    assert!(m.validate_session_at(&kept, 400).is_ok());
}

#[test]
fn sweep_and_issue_commute() {
    let mut a = manager_with_alice();
    let mut b = manager_with_alice();
    let old_a = a.generate_access_code_at("u1".to_string(), 0).unwrap();
    let old_b = b.generate_access_code_at("u1".to_string(), 0).unwrap();
    a.cleanup_expired_sessions_at(500);
    let new_a = a.generate_access_code_at("u2".to_string(), 500).unwrap();
    let new_b = b.generate_access_code_at("u2".to_string(), 500).unwrap();
    b.cleanup_expired_sessions_at(500);
    assert!(a.validate_session_at(&new_a, 500).is_ok());
    assert!(b.validate_session_at(&new_b, 500).is_ok());
    if old_a != new_a {
        assert!(matches!(a.validate_session_at(&old_a, 500), Err(AuthError::InvalidSession)));
    }
    if old_b != new_b {
        assert!(matches!(b.validate_session_at(&old_b, 500), Err(AuthError::InvalidSession)));
    }
}

#[test]
fn access_code_is_six_padded_digits() {
    assert_eq!(access_code(42), "000042");
    assert_eq!(access_code(0), "000000");
    assert_eq!(access_code(999_999), "999999");
    assert_eq!(access_code(1_234_567), "234567");
    assert_eq!(access_code(u32::MAX), "967295");
}

#[test]
fn expiry_saturates_at_the_largest_time() {
    let mut m = AuthManager::new();
    let code = m.generate_access_code_at("u1".to_string(), u64::MAX - 10).unwrap();
    let s = m.validate_session_at(&code, u64::MAX - 10).unwrap();
    assert_eq!(s.expires_at, u64::MAX);
}

#[test]
fn clock_variants_agree_with_timed_ones() {
    let mut m = AuthManager::new();
    m.create_user("carol".to_string(), "pw".to_string()).unwrap();
    let token = m.authenticate("carol".to_string(), "pw".to_string()).unwrap();
    assert_eq!(m.validate_session(&token).unwrap().user_id, "carol");
    let code = m.generate_access_code("carol".to_string()).unwrap();
    assert!(m.validate_session(&code).is_ok());
    m.cleanup_expired_sessions();
    assert!(m.validate_session(&token).is_ok());
}

#[test]
fn lifetimes_can_be_configured() {
    let mut m = AuthManager::with_ttls(10, 2);
    m.create_user_at("dave".to_string(), "pw".to_string(), 0).unwrap();
    let token = m.authenticate_at("dave".to_string(), "pw".to_string(), 0).unwrap();
    let code = m.generate_access_code_at("dave".to_string(), 0).unwrap();
    assert!(m.validate_session_at(&code, 1).is_ok());
    assert!(matches!(m.validate_session_at(&code, 2), Err(AuthError::SessionExpired)));
    assert!(m.validate_session_at(&token, 9).is_ok());
    assert!(matches!(m.validate_session_at(&token, 10), Err(AuthError::SessionExpired)));
}

#[test]
fn deactivated_account_cannot_log_in() {
    let mut m = manager_with_alice();
    let before = m.authenticate_at("alice".to_string(), "correct horse".to_string(), 200).unwrap();
    assert!(m.deactivate_user("alice"));
    assert!(!m.deactivate_user("bob"));
    let r = m.authenticate_at("alice".to_string(), "correct horse".to_string(), 201);
    assert!(matches!(r, Err(AuthError::InvalidCredentials)));
    assert!(m.validate_session_at(&before, 201).is_ok());
    assert!(matches!(m.create_user_at("alice".to_string(), "new".to_string(), 202), Err(AuthError::UserExists)));
}

#[test]
fn refused_login_changes_nothing() {
    let mut m = manager_with_alice();
    let token = m.authenticate_at("alice".to_string(), "correct horse".to_string(), 200).unwrap();
    assert!(m.authenticate_at("alice".to_string(), "nope".to_string(), 300).is_err());
    assert!(m.authenticate_at("zed".to_string(), "nope".to_string(), 300).is_err());
    let s = m.validate_session_at(&token, 300).unwrap();
    assert_eq!(s.created_at, 200);
    assert!(m.validate_session_at("zed", 300).is_err());
}

#[test]
fn session_tokens_are_64_lowercase_hex_digits() {
    let mut m = manager_with_alice();
    let token = m.authenticate_at("alice".to_string(), "correct horse".to_string(), 200).unwrap();
    assert_eq!(token.len(), 64);
    assert!(token.bytes().all(|c| c.is_ascii_digit() || (b'a'..=b'f').contains(&c)));
}

#[test]
fn new_identity_signs_up_and_existing_one_is_refused() {
    let mut m = AuthManager::new();
    assert!(m.create_user_at("alice".to_string(), "pw".to_string(), 0).is_ok());
    assert!(matches!(m.create_user_at("alice".to_string(), "x".to_string(), 1), Err(AuthError::UserExists)));
    assert!(m.create_user_at("Alice".to_string(), "pw".to_string(), 2).is_ok());
    assert!(m.create_user_at(String::new(), String::new(), 3).is_ok());
}

#[test]
fn many_access_codes_never_share_a_code() {
    let mut m = AuthManager::new();
    let mut seen = std::collections::HashSet::new();
    for i in 0..200u64 {
        let code = m.generate_access_code_at(format!("user{}", i), 0).unwrap();
        assert!(seen.insert(code.clone()));
        assert_eq!(m.validate_session_at(&code, 1).unwrap().user_id, format!("user{}", i));
    }
}

#[test]
fn login_under_a_given_token() {
    let mut m = manager_with_alice();
    let token = "ab".repeat(32);
    let got = m.authenticate_with_token("alice".to_string(), "correct horse".to_string(), token.clone(), 10).unwrap();
    assert_eq!(got, token);
    assert_eq!(m.validate_session_at(&token, 10).unwrap().user_id, "alice");
    let again = m.authenticate_with_token("alice".to_string(), "correct horse".to_string(), token.clone(), 20);
    assert!(matches!(again, Err(AuthError::InvalidCredentials)));
    assert_eq!(m.validate_session_at(&token, 20).unwrap().created_at, 10);
    let wrong = m.authenticate_with_token("alice".to_string(), "nope".to_string(), "cd".repeat(32), 20);
    assert!(matches!(wrong, Err(AuthError::InvalidCredentials)));
    assert!(matches!(m.validate_session_at(&"cd".repeat(32), 20), Err(AuthError::InvalidSession)));
}

#[test]
fn issuing_a_given_code_never_replaces_one() {
    let mut m = AuthManager::new();
    let code = m.issue_access_code("u1".to_string(), 1_000_042, 0).unwrap();
    assert_eq!(code, "000042");
    let taken = m.issue_access_code("u2".to_string(), 42, 0);
    assert!(matches!(taken, Err(AuthError::DatabaseError(ref t)) if t == "access code unavailable"));
    assert_eq!(m.validate_session_at("000042", 1).unwrap().user_id, "u1");
}
