//! Sessions held in cookies whose value is the Unix time they expire at,
//! and the password checks that open them.
use vstd::prelude::*;
use crate::decimal::{format_i64, format_i64_spec, lemma_parse_format_roundtrip, parse_i64, parse_i64_spec};
use crate::error::ApiError;
use crate::outside::{argon2_verifies, argon2_verify, chrono_timestamp_in_range, phc_is_valid, phc_parses, unix_now};

verus! {

/// How long a session opened with a link's password lasts, in seconds.
pub const LINK_SESSION_SECONDS: i64 = 300;

/// How long an admin session lasts, in seconds.
pub const ADMIN_SESSION_SECONDS: i64 = 1800;

/// The name of the admin session cookie. No link is ever stored under this
/// slug, so no link's session cookie carries it.
pub open spec fn admin_cookie_name() -> Seq<char> {
    "admin"@
}

/// Whether `name` is the admin session cookie's name.
pub fn is_admin_cookie_name(name: &String) -> (r: bool)
    ensures
        r == (name@ == admin_cookie_name()),
{
    *name == "admin".to_owned()
}

/// A cookie to set on the client: its name, value and attributes.
pub struct SessionCookie {
    pub name: String,
    pub value: String,
    pub path: String,
    pub http_only: bool,
    pub secure: bool,
    pub same_site_strict: bool,
}

/// The text of an optional string slice.
pub open spec fn opt_str_view(s: Option<&str>) -> Option<Seq<char>> {
    match s {
        Some(x) => Some(x@),
        None => None,
    }
}

/// A session cookie is valid at `now` when it is present, its value parses
/// as an `i64` expiry time, and `now` is before that time.
pub open spec fn session_valid(cookie: Option<Seq<char>>, now: i64) -> bool {
    match cookie {
        Some(value) => match parse_i64_spec(value) {
            Some(expiry) => now < expiry,
            None => false,
        },
        None => false,
    }
}

/// Whether the session cookie value `cookie` is valid at time `now`.
pub fn session_valid_at(cookie: Option<&str>, now: i64) -> (r: bool)
    ensures
        r == session_valid(opt_str_view(cookie), now),
{
    match cookie {
        Some(value) => match parse_i64(value) {
            Some(expiry) => now < expiry,
            None => false,
        },
        None => false,
    }
}

/// Whether the session cookie value `cookie` is valid now, by the clock.
/// Whatever the clock reads, the answer is the validity at some time.
pub fn session_valid_now(cookie: Option<&str>) -> (r: bool)
    ensures
        exists|now: i64| chrono_timestamp_in_range(now) && r == #[trigger] session_valid(opt_str_view(cookie), now),
        r ==> cookie is Some,
{
    let now = unix_now();
    session_valid_at(cookie, now)
}

/// The cookie that opens a session named `name` for `ttl` seconds from
/// `now`: its value is the expiry time in decimal, for path `/`, HTTP only,
/// same-site strict, and `Secure` as `secure` says.
pub open spec fn session_cookie_spec(c: SessionCookie, name: Seq<char>, now: i64, ttl: i64, secure: bool) -> bool {
    &&& c.name@ == name
    &&& c.value@ == format_i64_spec((now + ttl) as i64)
    &&& c.path@ == "/"@
    &&& c.http_only
    &&& c.secure == secure
    &&& c.same_site_strict
}

fn session_cookie(name: String, now: i64, ttl: i64, secure: bool) -> (c: SessionCookie)
    requires
        now + ttl <= i64::MAX,
        ttl >= 0,
    ensures
        session_cookie_spec(c, name@, now, ttl, secure),
{
    let expiry = now + ttl;
    SessionCookie {
        name,
        value: format_i64(expiry),
        path: "/".to_owned(),
        http_only: true,
        secure,
        same_site_strict: true,
    }
}

/// The cookie that a correct password for the link `slug` earns: named
/// after the slug, valid for `LINK_SESSION_SECONDS`.
pub fn link_session_cookie(slug: &String, now: i64, secure: bool) -> (c: SessionCookie)
    requires
        now + LINK_SESSION_SECONDS <= i64::MAX,
    ensures
        session_cookie_spec(c, slug@, now, LINK_SESSION_SECONDS, secure),
{
    session_cookie(slug.clone(), now, LINK_SESSION_SECONDS, secure)
}

/// The admin session cookie, valid for `ADMIN_SESSION_SECONDS`.
pub fn admin_session_cookie(now: i64, secure: bool) -> (c: SessionCookie)
    requires
        now + ADMIN_SESSION_SECONDS <= i64::MAX,
    ensures
        session_cookie_spec(c, admin_cookie_name(), now, ADMIN_SESSION_SECONDS, secure),
{
    session_cookie("admin".to_owned(), now, ADMIN_SESSION_SECONDS, secure)
}

/// `link_session_cookie` at the clock's time. The clock reads a timestamp
/// that chrono can hold, far from the end of `i64`, so a cookie always comes
/// back.
pub fn link_session_cookie_now(slug: &String, secure: bool) -> (r: Option<SessionCookie>)
    ensures
        r is Some,
        r matches Some(c) ==> exists|now: i64|
            #![trigger session_cookie_spec(c, slug@, now, LINK_SESSION_SECONDS, secure)]
            chrono_timestamp_in_range(now) && session_cookie_spec(c, slug@, now, LINK_SESSION_SECONDS, secure),
{
    let now = unix_now();
    let c = link_session_cookie(slug, now, secure);
    let r = Some(c);
    assert(r->0 == c);
    assert(session_cookie_spec(r->0, slug@, now, LINK_SESSION_SECONDS, secure));
    r
}

/// `admin_session_cookie` at the clock's time. The clock reads a timestamp
/// that chrono can hold, far from the end of `i64`, so a cookie always comes
/// back.
pub fn admin_session_cookie_now(secure: bool) -> (r: Option<SessionCookie>)
    ensures
        r is Some,
        r matches Some(c) ==> exists|now: i64|
            #![trigger session_cookie_spec(c, admin_cookie_name(), now, ADMIN_SESSION_SECONDS, secure)]
            chrono_timestamp_in_range(now) && session_cookie_spec(
                c,
                admin_cookie_name(),
                now,
                ADMIN_SESSION_SECONDS,
                secure,
            ),
{
    let now = unix_now();
    let c = admin_session_cookie(now, secure);
    let r = Some(c);
    assert(r->0 == c);
    assert(session_cookie_spec(r->0, admin_cookie_name(), now, ADMIN_SESSION_SECONDS, secure));
    r
}

/// A session cookie issued at `issued` for `ttl` seconds is valid at `now`
/// exactly when `now` is before `issued + ttl`.
pub proof fn lemma_issued_session_valid_until_expiry(c: SessionCookie, name: Seq<char>, issued: i64, ttl: i64, secure: bool, now: i64)
    requires
        issued + ttl <= i64::MAX,
        ttl >= 0,
        session_cookie_spec(c, name, issued, ttl, secure),
    ensures
        session_valid(Some(c.value@), now) <==> now < issued + ttl,
{
    lemma_parse_format_roundtrip((issued + ttl) as i64);
}

/// Checks the admin password in constant time: it is accepted exactly when
/// it equals the configured one.
pub fn check_admin_password(given: &String, admin_password: &String) -> (r: Result<(), ApiError>)
    ensures
        r is Ok <==> given@ == admin_password@,
        r is Err ==> r == Err::<(), ApiError>(ApiError::AdminPasswordInvalid),
{
    let a = given.as_str().as_bytes();
    let b = admin_password.as_str().as_bytes();
    let same = constant_time_eq::constant_time_eq(a, b);
    proof {
        vstd::utf8::encode_utf8_decode_utf8(given@);
        vstd::utf8::encode_utf8_decode_utf8(admin_password@);
    }
    if same {
        Ok(())
    } else {
        Err(ApiError::AdminPasswordInvalid)
    }
}

/// What the DB holds of a link: where it leads and its password's PHC
/// string, if it has one.
pub struct LinkRecord {
    pub original_url: String,
    pub password_hash: Option<String>,
}

/// The stored hash of a link parses, where there is one.
pub open spec fn stored_hash_parses(record: Option<&LinkRecord>) -> bool {
    match record {
        Some(r) => match r.password_hash {
            Some(h) => phc_parses(h@),
            None => true,
        },
        None => true,
    }
}

/// The verdict on a password given for a link: the link must exist, have a
/// password, and the password must verify against it.
pub open spec fn unlock_verdict(record: Option<&LinkRecord>, password: Seq<char>) -> Result<(), ApiError> {
    match record {
        None => Err(ApiError::LinkNotFound),
        Some(r) => match r.password_hash {
            None => Err(ApiError::LinkNotProtected),
            Some(h) => if argon2_verifies(password, h@) {
                Ok(())
            } else {
                Err(ApiError::LinkPasswordInvalid)
            },
        },
    }
}

/// Checks `password` against the link's stored hash.
pub fn unlock_link(record: Option<&LinkRecord>, password: &String) -> (r: Result<(), ApiError>)
    requires
        stored_hash_parses(record),
    ensures
        r == unlock_verdict(record, password@),
{
    match record {
        None => Err(ApiError::LinkNotFound),
        Some(rec) => match &rec.password_hash {
            None => Err(ApiError::LinkNotProtected),
            Some(h) => if argon2_verify(password.as_str(), h.as_str()) {
                Ok(())
            } else {
                Err(ApiError::LinkPasswordInvalid)
            },
        },
    }
}

/// `unlock_link` where the stored hash parses; `None` where the link holds a
/// hash that is not a PHC string.
pub fn try_unlock_link(record: Option<&LinkRecord>, password: &String) -> (r: Option<Result<(), ApiError>>)
    ensures
        r is None <==> !stored_hash_parses(record),
        r matches Some(v) ==> v == unlock_verdict(record, password@),
{
    match record {
        Some(rec) => match &rec.password_hash {
            Some(h) => {
                if !phc_is_valid(h.as_str()) {
                    return None;
                }
            },
            None => {},
        },
        None => {},
    }
    assert(stored_hash_parses(record));
    Some(unlock_link(record, password))
}

/// The page that `/{slug}/stats` shows.
#[derive(Debug, Clone, Copy, PartialEq, Eq, Structural)]
pub enum StatsPage {
    /// The form that asks for the admin password.
    Login,
    /// The statistics view.
    Dashboard,
}

/// The stats page at time `now`, where `admin_cookie` is the value of the
/// cookie named `admin_cookie_name()`, which only the admin login sets.
pub fn stats_page_at(admin_cookie: Option<&str>, now: i64) -> (p: StatsPage)
    ensures
        p == (if session_valid(opt_str_view(admin_cookie), now) { StatsPage::Dashboard } else { StatsPage::Login }),
{
    if session_valid_at(admin_cookie, now) {
        StatsPage::Dashboard
    } else {
        StatsPage::Login
    }
}

/// The stats page for the admin cookie at the clock's time.
pub fn stats_page_now(admin_cookie: Option<&str>) -> (p: StatsPage)
    ensures
        exists|now: i64|
            chrono_timestamp_in_range(now) && p == (if #[trigger] session_valid(opt_str_view(admin_cookie), now) {
                StatsPage::Dashboard
            } else {
                StatsPage::Login
            }),
        admin_cookie is None ==> p == StatsPage::Login,
{
    let now = unix_now();
    stats_page_at(admin_cookie, now)
}

/// Whether the click records of a link may be read: only in a valid admin
/// session. `admin_cookie` is the value of the cookie named
/// `admin_cookie_name()`, which only the admin login sets.
pub fn stats_access_at(admin_cookie: Option<&str>, now: i64) -> (r: Result<(), ApiError>)
    ensures
        r is Ok <==> session_valid(opt_str_view(admin_cookie), now),
        r is Err ==> r == Err::<(), ApiError>(ApiError::StatsNotAuthorized),
{
    if session_valid_at(admin_cookie, now) {
        Ok(())
    } else {
        Err(ApiError::StatsNotAuthorized)
    }
}

/// `stats_access_at` at the clock's time.
pub fn stats_access_now(admin_cookie: Option<&str>) -> (r: Result<(), ApiError>)
    ensures
        exists|now: i64|
            chrono_timestamp_in_range(now) && (r is Ok <==> #[trigger] session_valid(opt_str_view(admin_cookie), now)),
        r is Err ==> r == Err::<(), ApiError>(ApiError::StatsNotAuthorized),
        admin_cookie is None ==> r is Err,
{
    let now = unix_now();
    stats_access_at(admin_cookie, now)
}

} // verus!
