use bluefin_bot::auth::{
    private_key_bytes, token_from_grant, AuthError, AuthToken, BluefinEnvironment, TokenAction,
    TokenManager,
};
use bluefin_bot::time::Timestamp;

fn now_plus(secs: i64) -> Timestamp {
    let n = chrono::Utc::now();
    Timestamp { secs: n.timestamp() + secs, nanos: n.timestamp_subsec_nanos() }
}

#[test]
fn test_token_expiry() {
    let token = AuthToken {
        access_token: "test".to_string(),
        refresh_token: None,
        expires_at: now_plus(60),
    };
    assert!(!token.is_expired());

    let expired_token = AuthToken {
        access_token: "test".to_string(),
        refresh_token: None,
        expires_at: now_plus(-60),
    };
    assert!(expired_token.is_expired());
}

#[test]
fn test_invalid_key_length() {
    let result = TokenManager::new(
        "abc123".to_string(), // too short
        "0x123".to_string(),
        BluefinEnvironment::Staging,
    );
    assert!(result.is_err());
}

#[test]
fn key_length_error_names_the_length() {
    let r = TokenManager::new("abc123".to_string(), "0x1".to_string(), BluefinEnvironment::Dev);
    assert_eq!(
        r.unwrap_err(),
        AuthError::InvalidKey("Private key must be 64 hex characters, got 6".to_string())
    );
}

#[test]
fn key_of_64_non_hex_characters_is_refused() {
    let key = "g".repeat(64);
    let r = TokenManager::new(key, "0x1".to_string(), BluefinEnvironment::Staging);
    assert_eq!(
        r.unwrap_err(),
        AuthError::InvalidKey("Private key is not valid hexadecimal".to_string())
    );
}

#[test]
fn valid_key_is_accepted() {
    let key = "0123456789abcdefABCDEF0123456789abcdef0123456789abcdef0123456789".to_string();
    let m = TokenManager::new(key.clone(), "0xabc".to_string(), BluefinEnvironment::Production)
        .unwrap();
    assert_eq!(m.private_key_hex(), key);
    assert_eq!(m.account_address(), "0xabc");
    assert_eq!(m.environment(), BluefinEnvironment::Production);
    assert!(m.token().is_none());
}

#[test]
fn test_keys_exist_outside_production() {
    let m = TokenManager::with_test_keys(BluefinEnvironment::Staging).unwrap();
    assert_eq!(
        m.private_key_hex(),
        "3427d19dcf5781f0874c36c78aec22c03acda435d69efcbf249e8821793567a1"
    );
    assert_eq!(
        m.account_address(),
        "0x9b11fafc580f23932f379d99ab6cc4c638e85ba4c252fc909296f3f9e6cea786"
    );
    let p = TokenManager::with_test_keys(BluefinEnvironment::Production);
    assert_eq!(
        p.unwrap_err(),
        AuthError::InvalidKey("Test keys not available for production environment".to_string())
    );
}

#[test]
fn token_actions_follow_expiry() {
    let mut m = TokenManager::with_test_keys(BluefinEnvironment::Dev).unwrap();
    let now = now_plus(0);
    assert_eq!(m.next_action(now), TokenAction::Acquire);

    let fresh = token_from_grant("a1".to_string(), "r1".to_string(), 300, now);
    assert_eq!(fresh.expires_at.secs, now.secs + 300);
    assert_eq!(m.store_token(fresh), "a1");
    assert_eq!(m.next_action(now), TokenAction::Use("a1".to_string()));

    // Within 30 seconds of expiry the token is refreshed.
    let later = Timestamp { secs: now.secs + 280, nanos: now.nanos };
    assert_eq!(m.next_action(later), TokenAction::Refresh("r1".to_string()));

    let stale = AuthToken { access_token: "a2".to_string(), refresh_token: None, expires_at: now };
    m.store_token(stale);
    assert_eq!(m.next_action(now), TokenAction::Acquire);
}

#[test]
fn auth_error_texts() {
    assert_eq!(AuthError::NoToken.text(), "No valid token available");
    assert_eq!(AuthError::InvalidKey("k".to_string()).text(), "Invalid private key: k");
}

#[test]
fn refresh_outcome_decides_next_step() {
    let mut m = TokenManager::with_test_keys(BluefinEnvironment::Dev).unwrap();
    let now = now_plus(0);
    let failed = m.after_refresh(Err(AuthError::AuthFailed("denied".to_string())));
    assert_eq!(failed, TokenAction::Acquire);
    assert!(m.token().is_none());
    let fresh = token_from_grant("a3".to_string(), "r3".to_string(), 300, now);
    assert_eq!(m.after_refresh(Ok(fresh)), TokenAction::Use("a3".to_string()));
    assert_eq!(m.next_action(now), TokenAction::Use("a3".to_string()));
}

#[test]
fn private_key_bytes_decode_hex_pairs() {
    let k = private_key_bytes("0123456789abcdefABCDEF0123456789abcdef0123456789abcdef0123456789").unwrap();
    assert_eq!(k[0], 0x01);
    assert_eq!(k[7], 0xef);
    assert_eq!(k[8], 0xab);
    assert_eq!(k[31], 0x89);
    assert!(private_key_bytes("0x12").is_err());
}
