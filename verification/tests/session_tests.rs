use url_shortener::error::ApiError;
use url_shortener::link::hash_link_password;
use url_shortener::session::{
    admin_session_cookie, admin_session_cookie_now, check_admin_password, link_session_cookie,
    link_session_cookie_now, session_valid_at, session_valid_now, stats_access_at, stats_access_now,
    stats_page_at, stats_page_now, try_unlock_link, unlock_link, LinkRecord, StatsPage,
    ADMIN_SESSION_SECONDS, LINK_SESSION_SECONDS,
};

#[test]
fn session_valid_before_expiry_only() {
    assert!(session_valid_at(Some("100"), 99));
    assert!(!session_valid_at(Some("100"), 100));
    assert!(!session_valid_at(Some("100"), 101));
    assert!(!session_valid_at(None, 0));
    assert!(!session_valid_at(Some("soon"), 0));
    assert!(!session_valid_at(Some(""), i64::MIN));
}

#[test]
fn link_cookie_lasts_five_minutes() {
    assert_eq!(LINK_SESSION_SECONDS, 300);
    let c = link_session_cookie(&"abcdefg".to_string(), 1000, false);
    assert_eq!(c.name, "abcdefg");
    assert_eq!(c.value, "1300");
    assert_eq!(c.path, "/");
    assert!(c.http_only);
    assert!(!c.secure);
    assert!(c.same_site_strict);
    assert!(session_valid_at(Some(&c.value), 1299));
    assert!(!session_valid_at(Some(&c.value), 1300));
}

#[test]
fn admin_cookie_lasts_thirty_minutes() {
    assert_eq!(ADMIN_SESSION_SECONDS, 1800);
    let c = admin_session_cookie(1000, true);
    assert_eq!(c.name, "admin");
    assert_eq!(c.value, "2800");
    assert!(c.secure);
    assert!(session_valid_at(Some(&c.value), 2799));
    assert!(!session_valid_at(Some(&c.value), 2800));
}

#[test]
fn cookies_issued_now_are_valid_now() {
    let c = link_session_cookie_now(&"abcdefg".to_string(), false).unwrap();
    assert!(session_valid_now(Some(&c.value)));
    let a = admin_session_cookie_now(false).unwrap();
    assert!(session_valid_now(Some(&a.value)));
    assert_eq!(stats_page_now(Some(&a.value)), StatsPage::Dashboard);
    assert_eq!(stats_access_now(Some(&a.value)), Ok(()));
    assert!(!session_valid_now(Some("0")));
    assert_eq!(stats_page_now(None), StatsPage::Login);
    assert_eq!(stats_access_now(None), Err(ApiError::StatsNotAuthorized));
}

#[test]
fn admin_password_must_match() {
    let admin = "s3cret".to_string();
    assert_eq!(check_admin_password(&"s3cret".to_string(), &admin), Ok(()));
    assert_eq!(check_admin_password(&"s3cre".to_string(), &admin), Err(ApiError::AdminPasswordInvalid));
    assert_eq!(check_admin_password(&"".to_string(), &admin), Err(ApiError::AdminPasswordInvalid));
    assert_eq!(ApiError::AdminPasswordInvalid.status(), 403);
    assert_eq!(ApiError::AdminPasswordInvalid.message(), "Invalid password");
}

#[test]
fn stats_need_an_admin_session() {
    assert_eq!(stats_page_at(Some("2000"), 1999), StatsPage::Dashboard);
    assert_eq!(stats_page_at(Some("2000"), 2000), StatsPage::Login);
    assert_eq!(stats_page_at(None, 0), StatsPage::Login);
    assert_eq!(stats_access_at(Some("2000"), 1999), Ok(()));
    assert_eq!(stats_access_at(Some("x"), 0), Err(ApiError::StatsNotAuthorized));
    assert_eq!(ApiError::StatsNotAuthorized.status(), 401);
}

#[test]
fn stored_password_unlocks_the_link() {
    let hash = hash_link_password(&Some("hunter2".to_string())).unwrap().unwrap();
    assert!(hash.starts_with("$argon2"));
    let record = LinkRecord { original_url: "https://example.com".to_string(), password_hash: Some(hash) };
    assert_eq!(unlock_link(Some(&record), &"hunter2".to_string()), Ok(()));
    assert_eq!(unlock_link(Some(&record), &"hunter3".to_string()), Err(ApiError::LinkPasswordInvalid));
    assert_eq!(try_unlock_link(Some(&record), &"hunter2".to_string()), Some(Ok(())));
}

#[test]
fn unlocking_needs_a_protected_link() {
    let open = LinkRecord { original_url: "https://example.com".to_string(), password_hash: None };
    assert_eq!(unlock_link(Some(&open), &"x".to_string()), Err(ApiError::LinkNotProtected));
    assert_eq!(unlock_link(None, &"x".to_string()), Err(ApiError::LinkNotFound));
    assert_eq!(ApiError::LinkNotProtected.status(), 400);
    assert_eq!(ApiError::LinkNotFound.status(), 404);
}

#[test]
fn malformed_stored_hash_is_reported() {
    let broken = LinkRecord { original_url: "https://example.com".to_string(), password_hash: Some("not a hash".to_string()) };
    assert_eq!(try_unlock_link(Some(&broken), &"x".to_string()), None);
}

#[test]
fn two_hashes_of_one_password_differ() {
    let a = hash_link_password(&Some("pw".to_string())).unwrap().unwrap();
    let b = hash_link_password(&Some("pw".to_string())).unwrap().unwrap();
    assert_ne!(a, b);
    assert_ne!(a, "pw");
    assert_eq!(hash_link_password(&None), Ok(None));
}
