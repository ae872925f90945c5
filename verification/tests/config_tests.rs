use base64::Engine;
use url_shortener::config::{cookie_key, cookie_secret_bytes, health_report, CookieSecretError};
use url_shortener::error::ApiError;

#[test]
fn cookie_secret_is_base64() {
    assert_eq!(cookie_secret_bytes("aGVsbG8="), Some(b"hello".to_vec()));
    assert_eq!(cookie_secret_bytes("not base64!"), None);
    assert_eq!(cookie_secret_bytes(""), Some(Vec::new()));
}

#[test]
fn health_reflects_the_database() {
    let up = health_report(true);
    assert_eq!(up.status, 200);
    assert_eq!(up.body, "ok");
    let down = health_report(false);
    assert_eq!(down.status, 503);
    assert_eq!(down.body, "database unavailable");
}

#[test]
fn stats_error_messages() {
    assert_eq!(ApiError::StatsNotAuthorized.message(), "Not authorized to view stats.");
    assert_eq!(ApiError::StatsFetchFailed.message(), "Failed to fetch click stats.");
    assert_eq!(ApiError::StatsFetchFailed.status(), 500);
    assert_eq!(ApiError::LinkPasswordInvalid.message(), "Invalid password.");
    assert_eq!(ApiError::LinkPasswordInvalid.status(), 403);
    assert_eq!(ApiError::LinkNotProtected.message(), "This link is not password protected.");
}

#[test]
fn cookie_key_needs_64_decoded_bytes() {
    // 86 "A"s and "==" decode to 64 zero bytes; 84 "A"s to 63
    let sixty_four = format!("{}==", "A".repeat(86));
    assert_eq!(cookie_secret_bytes(&sixty_four).map(|b| b.len()), Some(64));
    assert!(cookie_key(&sixty_four).is_ok());
    let sixty_three = "A".repeat(84);
    assert_eq!(cookie_secret_bytes(&sixty_three).map(|b| b.len()), Some(63));
    assert_eq!(cookie_key(&sixty_three).err(), Some(CookieSecretError::TooShort));
    assert_eq!(cookie_key("").err(), Some(CookieSecretError::TooShort));
    assert_eq!(cookie_key("not base64!").err(), Some(CookieSecretError::NotBase64));
}

#[test]
fn cookie_key_is_built_from_the_secret() {
    let material: Vec<u8> = (0u8..70).map(|b| b.wrapping_mul(37).wrapping_add(11)).collect();
    let secret = base64::prelude::BASE64_STANDARD.encode(&material);
    let key = cookie_key(&secret).unwrap();
    assert_eq!(key.master(), &material[..64]);
    let other = base64::prelude::BASE64_STANDARD.encode(&material[6..]);
    assert_eq!(cookie_key(&other).unwrap().master(), &material[6..70]);
}
