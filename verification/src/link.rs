//! Creating links and following them.
use vstd::prelude::*;
use crate::blocklist::Blocklist;
use crate::error::ApiError;
use crate::outside::{argon2_hash_fresh, argon2_verifies, is_argon2id_phc, phc_parses, url_host, url_host_of};
use crate::session::{
    lemma_issued_session_valid_until_expiry, session_cookie_spec, session_valid, stored_hash_parses, unlock_verdict,
    LinkRecord, SessionCookie, LINK_SESSION_SECONDS,
};
use crate::slug::{check_custom_slug, custom_slug_verdict, opt_view};
use crate::text::utf8_len;
use crate::text::{chars_of, string_from_chars};

verus! {

/// The body of a request to shorten a URL.
pub struct CreateRequest {
    pub long_url: String,
    pub slug: Option<String>,
    pub password: Option<String>,
}

/// The body of a request that gives a password.
pub struct PasswordVerifyRequest {
    pub password: String,
}

/// A link ready to be stored: the URL it leads to, the custom slug if one
/// was asked for, and the PHC string of its password if it has one.
pub struct NewLink {
    pub long_url: String,
    pub slug: Option<String>,
    pub password_hash: Option<String>,
}

/// The verdict on a long URL: it must have a host, and the host must not be
/// on the domain blocklist. On success, the host.
pub open spec fn target_verdict(long_url: Seq<char>, blocked: Set<Seq<char>>) -> Result<Seq<char>, ApiError> {
    match url_host_of(long_url) {
        None => Err(ApiError::InvalidUrl),
        Some(host) => if blocked.contains(host) {
            Err(ApiError::UrlBlocked)
        } else {
            Ok(host)
        },
    }
}

/// Checks that `long_url` has a host that is not blocked, and returns it.
pub fn check_target(long_url: &String, domain_blocklist: &Blocklist) -> (r: Result<String, ApiError>)
    ensures
        match r {
            Ok(host) => target_verdict(long_url@, domain_blocklist@) == Ok::<Seq<char>, ApiError>(host@),
            Err(e) => target_verdict(long_url@, domain_blocklist@) == Err::<Seq<char>, ApiError>(e),
        },
{
    match url_host(long_url.as_str()) {
        None => Err(ApiError::InvalidUrl),
        Some(host) => if domain_blocklist.contains(&host) {
            Err(ApiError::UrlBlocked)
        } else {
            Ok(host)
        },
    }
}

/// A URL that passes the check has a host, and the host is not blocked.
pub proof fn lemma_accepted_target_not_blocked(long_url: Seq<char>, blocked: Set<Seq<char>>)
    requires
        target_verdict(long_url, blocked) is Ok,
    ensures
        url_host_of(long_url) == Some(target_verdict(long_url, blocked)->Ok_0),
        !blocked.contains(target_verdict(long_url, blocked)->Ok_0),
{
}

/// What the URL check answers, for every URL: a URL without a host (or one
/// that does not parse) is invalid; a URL whose host is on the domain
/// blocklist is blocked; and every other URL is accepted with its host.
pub proof fn lemma_target_verdict_exact(long_url: Seq<char>, blocked: Set<Seq<char>>)
    ensures
        url_host_of(long_url) is None ==> target_verdict(long_url, blocked) == Err::<Seq<char>, ApiError>(
            ApiError::InvalidUrl,
        ),
        url_host_of(long_url) matches Some(h) ==> target_verdict(long_url, blocked) == (if blocked.contains(h) {
            Err::<Seq<char>, ApiError>(ApiError::UrlBlocked)
        } else {
            Ok::<Seq<char>, ApiError>(h)
        }),
{
}

/// Hashes the link's password, if it has one. A hash that comes back is an
/// Argon2id PHC string that verifies the same password, so it is never the
/// password itself unless the password is such a string; the only error is a
/// failed hashing, which happens only for a password of more than
/// 0xFFFF_FFFF bytes.
pub fn hash_link_password(password: &Option<String>) -> (r: Result<Option<String>, ApiError>)
    ensures
        password is None ==> r == Ok::<Option<String>, ApiError>(None),
        password matches Some(p) ==> match r {
            Ok(Some(h)) => phc_parses(h@) && argon2_verifies(p@, h@) && is_argon2id_phc(h@) && (!is_argon2id_phc(p@)
                ==> h@ != p@),
            Ok(None) => false,
            Err(e) => e == ApiError::PasswordHashFailed,
        },
        password matches Some(p) ==> (utf8_len(p@) <= 0xFFFF_FFFF ==> r matches Ok(Some(_))),
{
    match password {
        None => Ok(None),
        Some(p) => match argon2_hash_fresh(p.as_str()) {
            Some(h) => Ok(Some(h)),
            None => Err(ApiError::PasswordHashFailed),
        },
    }
}

/// The custom slug passes its checks, or there is none.
pub open spec fn slug_verdict(slug: Option<String>, blocked: Set<Seq<char>>) -> Result<(), ApiError> {
    match slug {
        Some(s) => custom_slug_verdict(s@, blocked),
        None => Ok(()),
    }
}

/// The outcome of readying a link once the password's hashing came back
/// as `hashed`: a failed hashing is answered first, then the custom slug is
/// checked.
pub open spec fn assemble_verdict(
    slug: Option<String>,
    hashed: Result<Option<String>, ApiError>,
    blocked: Set<Seq<char>>,
) -> Result<(), ApiError> {
    match hashed {
        Err(e) => Err(e),
        Ok(_) => slug_verdict(slug, blocked),
    }
}

/// Readies the link of `request` once its password's hashing came back as
/// `hashed`: a failed hashing is the answer; otherwise the custom slug, if
/// any, is checked, and the link keeps the request's URL and slug and the
/// hash.
pub fn assemble_link(
    request: CreateRequest,
    hashed: Result<Option<String>, ApiError>,
    slug_blocklist: &Blocklist,
) -> (r: Result<NewLink, ApiError>)
    ensures
        match r {
            Ok(link) => {
                &&& assemble_verdict(request.slug, hashed, slug_blocklist@) is Ok
                &&& link.long_url@ == request.long_url@
                &&& opt_view(link.slug) == opt_view(request.slug)
                &&& hashed matches Ok(h) && opt_view(link.password_hash) == opt_view(h)
            },
            Err(e) => assemble_verdict(request.slug, hashed, slug_blocklist@) == Err::<(), ApiError>(e),
        },
{
    let password_hash = match hashed {
        Err(e) => {
            return Err(e);
        },
        Ok(h) => h,
    };
    if let Some(slug) = &request.slug {
        if let Err(e) = check_custom_slug(slug, slug_blocklist) {
            return Err(e);
        }
    }
    Ok(NewLink { long_url: request.long_url, slug: request.slug, password_hash })
}

/// Checks a request to shorten a URL and readies the link, in this order:
/// the URL's host, the domain blocklist, the password's hash, then the
/// custom slug. Storing it, and drawing a generated slug where none was
/// asked for, is left to the caller.
pub fn prepare_link(request: CreateRequest, domain_blocklist: &Blocklist, slug_blocklist: &Blocklist) -> (r: Result<NewLink, ApiError>)
    ensures
        target_verdict(request.long_url@, domain_blocklist@) matches Err(e) ==> r == Err::<NewLink, ApiError>(e),
        target_verdict(request.long_url@, domain_blocklist@) is Ok && request.password is None ==> match r {
            Ok(link) => slug_verdict(request.slug, slug_blocklist@) is Ok && link.password_hash is None,
            Err(e) => slug_verdict(request.slug, slug_blocklist@) == Err::<(), ApiError>(e),
        },
        r == Err::<NewLink, ApiError>(ApiError::PasswordHashFailed) ==> (target_verdict(request.long_url@, domain_blocklist@) is Ok
            && (request.password matches Some(p) && utf8_len(p@) > 0xFFFF_FFFF)),
        target_verdict(request.long_url@, domain_blocklist@) is Ok && (request.password matches Some(p) ==> utf8_len(p@)
            <= 0xFFFF_FFFF) ==> match r {
            Ok(link) => slug_verdict(request.slug, slug_blocklist@) is Ok,
            Err(e) => slug_verdict(request.slug, slug_blocklist@) == Err::<(), ApiError>(e),
        },
        r matches Err(e) ==> (e != ApiError::PasswordHashFailed && target_verdict(request.long_url@, domain_blocklist@) is Ok
            ==> slug_verdict(request.slug, slug_blocklist@) == Err::<(), ApiError>(e)),
        r matches Ok(link) ==> {
            &&& target_verdict(request.long_url@, domain_blocklist@) is Ok
            &&& slug_verdict(request.slug, slug_blocklist@) is Ok
            &&& link.long_url@ == request.long_url@
            &&& opt_view(link.slug) == opt_view(request.slug)
            &&& (link.password_hash is Some <==> request.password is Some)
            &&& (link.password_hash matches Some(h) ==> phc_parses(h@) && argon2_verifies(request.password->0@, h@)
                && is_argon2id_phc(h@))
        },
{
    if let Err(e) = check_target(&request.long_url, domain_blocklist) {
        return Err(e);
    }
    let hashed = hash_link_password(&request.password);
    assemble_link(request, hashed, slug_blocklist)
}

/// A link readied with a password, once stored, is unlocked by that same
/// password.
pub proof fn lemma_stored_link_unlocks_with_its_password(link: NewLink, password: Seq<char>, record: LinkRecord)
    requires
        link.password_hash matches Some(h) && phc_parses(h@) && argon2_verifies(password, h@),
        opt_view(record.password_hash) == opt_view(link.password_hash),
    ensures
        crate::session::stored_hash_parses(Some(&record)),
        crate::session::unlock_verdict(Some(&record), password) == Ok::<(), ApiError>(()),
{
}

/// A link readied with a password and stored under `slug` is unlocked by
/// that password; the link session cookie issued at `issued` is then valid at every `now`
/// before `issued + LINK_SESSION_SECONDS`, and following the link with it
/// forwards the visitor to the stored URL.
pub proof fn lemma_unlocked_link_forwards(
    link: NewLink,
    password: Seq<char>,
    record: LinkRecord,
    slug: Seq<char>,
    cookie: SessionCookie,
    issued: i64,
    secure: bool,
    now: i64,
)
    requires
        link.password_hash matches Some(h) && phc_parses(h@) && argon2_verifies(password, h@),
        opt_view(record.password_hash) == opt_view(link.password_hash),
        record.original_url@ == link.long_url@,
        session_cookie_spec(cookie, slug, issued, LINK_SESSION_SECONDS, secure),
        issued + LINK_SESSION_SECONDS <= i64::MAX,
        now < issued + LINK_SESSION_SECONDS,
    ensures
        stored_hash_parses(Some(&record)),
        unlock_verdict(Some(&record), password) == Ok::<(), ApiError>(()),
        session_valid(Some(cookie.value@), now),
        follow_forwards(Some(record), session_valid(Some(cookie.value@), now)),
{
    lemma_stored_link_unlocks_with_its_password(link, password, record);
    lemma_issued_session_valid_until_expiry(cookie, slug, issued, LINK_SESSION_SECONDS, secure, now);
}

/// One click on a link, as the click log stores it. `created_at` is filled
/// in by the store.
pub struct ClickRecord {
    pub slug: String,
    pub referrer: String,
    pub user_agent: String,
    pub ip: String,
    pub created_at: Option<chrono::NaiveDateTime>,
}

/// The answer to a request for a link's click log, once the store was asked
/// whether the link exists and, where it does, for its clicks (`None` where
/// that read failed): the link must exist, then the read must succeed.
pub fn click_stats(link_found: bool, clicks: Option<Vec<ClickRecord>>) -> (r: Result<Vec<ClickRecord>, ApiError>)
    ensures
        !link_found ==> r == Err::<Vec<ClickRecord>, ApiError>(ApiError::LinkNotFound),
        link_found ==> match clicks {
            Some(c) => r matches Ok(v) && v@ == c@,
            None => r == Err::<Vec<ClickRecord>, ApiError>(ApiError::StatsFetchFailed),
        },
{
    if !link_found {
        return Err(ApiError::LinkNotFound);
    }
    match clicks {
        Some(v) => Ok(v),
        None => Err(ApiError::StatsFetchFailed),
    }
}

/// Where following a link leads.
pub enum Redirect {
    /// The link has a password and the visitor holds no valid session for
    /// it: show the password form.
    PasswordRequired,
    /// Send the visitor to `target` and log `click`.
    Forward { target: String, click: ClickRecord },
}

/// A header's value, or the fallback where the header is missing.
pub open spec fn or_default(value: Option<Seq<char>>, fallback: Seq<char>) -> Seq<char> {
    match value {
        Some(v) => v,
        None => fallback,
    }
}

/// Whether following a link forwards the visitor: the link exists, and it
/// has no password or the visitor holds a valid session for it.
pub open spec fn follow_forwards(record: Option<LinkRecord>, authorized: bool) -> bool {
    record matches Some(rec) && (rec.password_hash is None || authorized)
}

/// Decides what following the link `slug` does. `record` is what the store
/// holds for it, `authorized` whether the visitor holds a valid session for
/// it, and the visitor's user agent and referrer headers (where they are
/// readable) and address go into the click that is logged.
pub fn follow_link(
    slug: &String,
    record: Option<LinkRecord>,
    authorized: bool,
    user_agent: Option<String>,
    referrer: Option<String>,
    ip: String,
) -> (r: Result<Redirect, ApiError>)
    ensures
        record is None ==> r == Err::<Redirect, ApiError>(ApiError::LinkNotFound),
        (r matches Ok(Redirect::Forward { .. })) <==> follow_forwards(record, authorized),
        record matches Some(rec) ==> match r {
            Ok(Redirect::PasswordRequired) => rec.password_hash is Some && !authorized,
            Ok(Redirect::Forward { target, click }) => {
                &&& (rec.password_hash is None || authorized)
                &&& target@ == rec.original_url@
                &&& click.slug@ == slug@
                &&& click.user_agent@ == or_default(opt_view(user_agent), "Unknown"@)
                &&& click.referrer@ == or_default(opt_view(referrer), "Direct"@)
                &&& click.ip@ == ip@
                &&& click.created_at is None
            },
            Err(_) => false,
        },
{
    let rec = match record {
        None => {
            return Err(ApiError::LinkNotFound);
        },
        Some(rec) => rec,
    };
    if rec.password_hash.is_some() && !authorized {
        return Ok(Redirect::PasswordRequired);
    }
    let user_agent = match user_agent {
        Some(v) => v,
        None => "Unknown".to_owned(),
    };
    let referrer = match referrer {
        Some(v) => v,
        None => "Direct".to_owned(),
    };
    let click = ClickRecord { slug: slug.clone(), referrer, user_agent, ip, created_at: None };
    Ok(Redirect::Forward { target: rec.original_url, click })
}

/// Optional whitespace in an HTTP header: a space or a tab.
pub open spec fn is_ows(c: char) -> bool {
    c == ' ' || c == '\t'
}

/// Index of the first `','` in `s`, or `s.len()` where there is none.
pub open spec fn comma_pos(s: Seq<char>) -> nat
    decreases s.len(),
{
    if s.len() == 0 {
        0
    } else if s[0] == ',' {
        0
    } else {
        1 + comma_pos(s.drop_first())
    }
}

/// How many whitespace characters `s` begins with.
pub open spec fn leading_ows(s: Seq<char>) -> nat
    decreases s.len(),
{
    if s.len() > 0 && is_ows(s[0]) {
        1 + leading_ows(s.drop_first())
    } else {
        0
    }
}

/// How many whitespace characters `s` ends with.
pub open spec fn trailing_ows(s: Seq<char>) -> nat
    decreases s.len(),
{
    if s.len() > 0 && is_ows(s.last()) {
        1 + trailing_ows(s.drop_last())
    } else {
        0
    }
}

/// `s` without the whitespace it begins and ends with.
pub open spec fn trim_ows(s: Seq<char>) -> Seq<char> {
    let t = s.skip(leading_ows(s) as int);
    t.take(t.len() - trailing_ows(t))
}

/// The first address an `X-Forwarded-For` header lists: the text before
/// its first comma, trimmed.
pub open spec fn first_forwarded_hop(header: Seq<char>) -> Seq<char> {
    trim_ows(header.take(comma_pos(header) as int))
}

/// The client's address: the first address of `X-Forwarded-For` when the
/// header is there and that address is not empty, else the address of the
/// peer that connected.
pub open spec fn client_ip_spec(forwarded_for: Option<Seq<char>>, peer_ip: Seq<char>) -> Seq<char> {
    match forwarded_for {
        Some(h) => if first_forwarded_hop(h).len() > 0 {
            first_forwarded_hop(h)
        } else {
            peer_ip
        },
        None => peer_ip,
    }
}

proof fn lemma_comma_pos(s: Seq<char>, k: int)
    requires
        0 <= k <= s.len(),
        forall|j: int| 0 <= j < k ==> s[j] != ',',
        k == s.len() || s[k] == ',',
    ensures
        comma_pos(s) == k,
    decreases k,
{
    if k > 0 {
        let t = s.drop_first();
        assert forall|j: int| 0 <= j < k - 1 implies t[j] != ',' by {
            assert(t[j] == s[j + 1]);
        }
        lemma_comma_pos(t, k - 1);
    }
}

proof fn lemma_leading_ows(s: Seq<char>, k: int)
    requires
        0 <= k <= s.len(),
        forall|j: int| 0 <= j < k ==> is_ows(s[j]),
        k == s.len() || !is_ows(s[k]),
    ensures
        leading_ows(s) == k,
    decreases k,
{
    if k > 0 {
        let t = s.drop_first();
        assert forall|j: int| 0 <= j < k - 1 implies is_ows(t[j]) by {
            assert(t[j] == s[j + 1]);
        }
        lemma_leading_ows(t, k - 1);
    }
}

proof fn lemma_trailing_ows(s: Seq<char>, k: int)
    requires
        0 <= k <= s.len(),
        forall|j: int| s.len() - k <= j < s.len() ==> is_ows(s[j]),
        k == s.len() || !is_ows(s[s.len() - k - 1]),
    ensures
        trailing_ows(s) == k,
    decreases k,
{
    if k > 0 {
        let t = s.drop_last();
        assert forall|j: int| t.len() - (k - 1) <= j < t.len() implies is_ows(t[j]) by {
            assert(t[j] == s[j]);
        }
        if k - 1 < t.len() {
            assert(t[t.len() - (k - 1) - 1] == s[s.len() - k - 1]);
        }
        lemma_trailing_ows(t, k - 1);
    }
}

proof fn lemma_leading_ows_bounds(s: Seq<char>)
    ensures
        leading_ows(s) <= s.len(),
        forall|j: int| 0 <= j < leading_ows(s) ==> is_ows(#[trigger] s[j]),
        leading_ows(s) == s.len() || !is_ows(s[leading_ows(s) as int]),
    decreases s.len(),
{
    if s.len() > 0 && is_ows(s[0]) {
        let t = s.drop_first();
        lemma_leading_ows_bounds(t);
        assert forall|j: int| 0 <= j < leading_ows(s) implies is_ows(#[trigger] s[j]) by {
            if j > 0 {
                assert(s[j] == t[j - 1]);
            }
        }
        if leading_ows(s) < s.len() {
            assert(s[leading_ows(s) as int] == t[leading_ows(t) as int]);
        }
    }
}

proof fn lemma_trailing_ows_bounds(s: Seq<char>)
    ensures
        trailing_ows(s) <= s.len(),
        forall|j: int| s.len() - trailing_ows(s) <= j < s.len() ==> is_ows(#[trigger] s[j]),
        trailing_ows(s) == s.len() || !is_ows(s[s.len() - trailing_ows(s) - 1]),
    decreases s.len(),
{
    if s.len() > 0 && is_ows(s.last()) {
        let t = s.drop_last();
        lemma_trailing_ows_bounds(t);
        assert forall|j: int| s.len() - trailing_ows(s) <= j < s.len() implies is_ows(#[trigger] s[j]) by {
            if j < s.len() - 1 {
                assert(s[j] == t[j]);
            }
        }
        if trailing_ows(s) < s.len() {
            assert(s[s.len() - trailing_ows(s) - 1] == t[t.len() - trailing_ows(t) - 1]);
        }
    }
}

/// The address logged for a client is the first entry of `X-Forwarded-For`:
/// with `k` the position of the header's first comma (or its length where
/// it has none), the address is the peer's where the text before `k` is only
/// spaces and tabs, and otherwise it is that text without the spaces and
/// tabs around it, so it never holds a comma or anything after one.
pub proof fn lemma_client_ip_is_first_forwarded_address(header: Seq<char>, peer_ip: Seq<char>, k: int)
    requires
        0 <= k <= header.len(),
        forall|j: int| 0 <= j < k ==> #[trigger] header[j] != ',',
        k == header.len() || header[k] == ',',
    ensures
        (forall|j: int| 0 <= j < k ==> #[trigger] header[j] == ' ' || header[j] == '\t') ==> client_ip_spec(
            Some(header),
            peer_ip,
        ) == peer_ip,
        (exists|j: int| 0 <= j < k && #[trigger] header[j] != ' ' && header[j] != '\t') ==> exists|a: int, b: int|
            {
                &&& 0 <= a < b <= k
                &&& client_ip_spec(Some(header), peer_ip) == header.subrange(a, b)
                &&& forall|j: int| 0 <= j < a ==> #[trigger] header[j] == ' ' || header[j] == '\t'
                &&& forall|j: int| b <= j < k ==> #[trigger] header[j] == ' ' || header[j] == '\t'
                &&& header[a] != ' ' && header[a] != '\t'
                &&& header[b - 1] != ' ' && header[b - 1] != '\t'
            },
{
    lemma_comma_pos(header, k);
    let part = header.take(k);
    lemma_leading_ows_bounds(part);
    let a = leading_ows(part) as int;
    let t = part.skip(a);
    lemma_trailing_ows_bounds(t);
    let b = k - trailing_ows(t);
    assert(first_forwarded_hop(header) =~= header.subrange(a, b));
    if exists|j: int| 0 <= j < k && #[trigger] header[j] != ' ' && header[j] != '\t' {
        let j = choose|j: int| 0 <= j < k && #[trigger] header[j] != ' ' && header[j] != '\t';
        if a == k {
            assert(is_ows(part[j]));
        }
        assert(t[0] == header[a]);
        if trailing_ows(t) == t.len() {
            assert(is_ows(t[0]));
        }
        assert(t[t.len() - trailing_ows(t) - 1] == header[b - 1]);
        assert forall|i: int| 0 <= i < a implies #[trigger] header[i] == ' ' || header[i] == '\t' by {
            assert(is_ows(part[i]));
        }
        assert forall|i: int| b <= i < k implies #[trigger] header[i] == ' ' || header[i] == '\t' by {
            assert(t[i - a] == header[i]);
            assert(is_ows(t[i - a]));
        }
        assert(header.subrange(a, b).len() > 0);
    } else {
        if a < k {
            assert(!is_ows(part[a]));
            assert(header[a] == ' ' || header[a] == '\t');
        }
        assert(header.subrange(a, b).len() == 0);
    }
}

/// The client's address, from the `X-Forwarded-For` header where a proxy
/// set one, else from the connection.
pub fn client_ip(forwarded_for: Option<String>, peer_ip: String) -> (ip: String)
    ensures
        ip@ == client_ip_spec(opt_view(forwarded_for), peer_ip@),
{
    let header = match forwarded_for {
        None => {
            return peer_ip;
        },
        Some(h) => h,
    };
    let ghost h = header@;
    let v = chars_of(header.as_str());
    let n: usize = v.len();
    let mut p: usize = 0;
    while p < n && v[p] != ','
        invariant
            v@ == h,
            n == h.len(),
            0 <= p <= n,
            forall|j: int| 0 <= j < p ==> h[j] != ',',
        decreases n - p,
    {
        p = p + 1;
    }
    proof {
        lemma_comma_pos(h, p as int);
    }
    let ghost part = h.take(p as int);
    let mut a: usize = 0;
    while a < p && (v[a] == ' ' || v[a] == '\t')
        invariant
            v@ == h,
            n == h.len(),
            p <= n,
            0 <= a <= p,
            forall|j: int| 0 <= j < a ==> is_ows(h[j]),
        decreases p - a,
    {
        a = a + 1;
    }
    proof {
        assert forall|j: int| 0 <= j < a implies is_ows(part[j]) by {
            assert(part[j] == h[j]);
        }
        lemma_leading_ows(part, a as int);
    }
    let ghost t = part.skip(a as int);
    let mut b: usize = p;
    while b > a && (v[b - 1] == ' ' || v[b - 1] == '\t')
        invariant
            v@ == h,
            n == h.len(),
            p <= n,
            a <= b <= p,
            forall|j: int| b <= j < p ==> is_ows(h[j]),
        decreases b - a,
    {
        b = b - 1;
    }
    proof {
        assert forall|j: int| t.len() - (p - b) <= j < t.len() implies is_ows(t[j]) by {
            assert(t[j] == h[a + j]);
        }
        if p - b < t.len() {
            assert(t[t.len() - (p - b) - 1] == h[b - 1]);
        }
        lemma_trailing_ows(t, (p - b) as int);
        assert(first_forwarded_hop(h) =~= h.subrange(a as int, b as int));
    }
    if a == b {
        return peer_ip;
    }
    let mut out: Vec<char> = Vec::new();
    let mut i: usize = a;
    while i < b
        invariant
            v@ == h,
            n == h.len(),
            a <= i <= b <= n,
            out@ == h.subrange(a as int, i as int),
        decreases b - i,
    {
        out.push(v[i]);
        i = i + 1;
    }
    string_from_chars(out.as_slice())
}

} // verus!
