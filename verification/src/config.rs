//! Start-up configuration and the health report.
use vstd::prelude::*;
use axum_extra::extract::cookie::Key;
use crate::outside::{base64_standard_decoding, cookie_key_from, cookie_key_of, decode_base64_standard};

verus! {

/// The key material of the cookie secret: the secret's standard Base64
/// decoding, or `None` where it is not valid Base64.
pub fn cookie_secret_bytes(secret: &str) -> (r: Option<Vec<u8>>)
    ensures
        match r {
            Some(bytes) => base64_standard_decoding(secret@) == Some(bytes@),
            None => base64_standard_decoding(secret@) is None,
        },
{
    decode_base64_standard(secret)
}

/// The fewest bytes of key material that a cookie key is built from.
pub const COOKIE_KEY_MIN_BYTES: usize = 64;

/// Why the cookie secret gives no cookie key.
#[derive(Debug, Clone, Copy, PartialEq, Eq)]
pub enum CookieSecretError {
    /// The secret is not valid standard Base64.
    NotBase64,
    /// The secret decodes to fewer than `COOKIE_KEY_MIN_BYTES` bytes.
    TooShort,
}

/// Whether a cookie secret gives a cookie key, and if not, why.
pub open spec fn cookie_secret_verdict(secret: Seq<char>) -> Result<(), CookieSecretError> {
    match base64_standard_decoding(secret) {
        None => Err(CookieSecretError::NotBase64),
        Some(bytes) => if bytes.len() < COOKIE_KEY_MIN_BYTES {
            Err(CookieSecretError::TooShort)
        } else {
            Ok(())
        },
    }
}

/// The key of the private cookies, built from the first
/// `COOKIE_KEY_MIN_BYTES` bytes of the cookie secret's Base64 decoding; an
/// error where the secret is not Base64 or decodes to fewer bytes.
pub fn cookie_key(secret: &str) -> (r: Result<Key, CookieSecretError>)
    ensures
        r is Ok <==> cookie_secret_verdict(secret@) is Ok,
        r matches Ok(k) ==> k == cookie_key_of(base64_standard_decoding(secret@)->0.take(64)),
        r matches Err(e) ==> cookie_secret_verdict(secret@) == Err::<(), CookieSecretError>(e),
{
    match cookie_secret_bytes(secret) {
        None => Err(CookieSecretError::NotBase64),
        Some(bytes) => match cookie_key_from(bytes.as_slice()) {
            Some(key) => Ok(key),
            None => Err(CookieSecretError::TooShort),
        },
    }
}

/// What `/health` answers: the HTTP status and the body.
pub struct HealthReport {
    pub status: u16,
    pub body: String,
}

/// The health report: `200 ok` while the database answers, else
/// `503 database unavailable`.
pub fn health_report(db_alive: bool) -> (h: HealthReport)
    ensures
        db_alive ==> h.status == 200 && h.body@ == "ok"@,
        !db_alive ==> h.status == 503 && h.body@ == "database unavailable"@,
{
    if db_alive {
        HealthReport { status: 200, body: "ok".to_owned() }
    } else {
        HealthReport { status: 503, body: "database unavailable".to_owned() }
    }
}

} // verus!
