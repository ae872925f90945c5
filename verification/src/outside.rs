//! The calls this library makes into outside crates. Verus believes the
//! contracts in this file; each doc comment says what is claimed.
use vstd::prelude::*;
use argon2::password_hash::{PasswordHash, PasswordHasher, PasswordVerifier, SaltString};
use base64::Engine;

verus! {

/// The host that `url::Url::parse` followed by `Url::host_str` finds in a
/// text, or `None` where the text does not parse as a URL or the URL has no
/// host.
pub uninterp spec fn url_host_of(url: Seq<char>) -> Option<Seq<char>>;

/// Parses `url` with `url::Url::parse` and returns its `host_str()`.
/// Claimed: the result is `url_host_of(url)`, a function of the text alone.
#[verifier::external_body]
pub(crate) fn url_host(url: &str) -> (r: Option<String>)
    ensures
        match r {
            Some(h) => url_host_of(url@) == Some(h@),
            None => url_host_of(url@) is None,
        },
{
    match url::Url::parse(url) {
        Ok(parsed) => match parsed.host_str() {
            Some(h) => Some(h.to_string()),
            None => None,
        },
        Err(_) => None,
    }
}

/// Whether `sqids::SqidsBuilder::build` accepts an alphabet: every
/// character is one UTF-8 byte (below U+0080), there are at least 3 of them,
/// and none is repeated.
pub open spec fn sqids_alphabet_accepted(alphabet: Seq<char>) -> bool {
    &&& forall|i: int| 0 <= i < alphabet.len() ==> (#[trigger] alphabet[i] as u32) < 0x80
    &&& alphabet.len() >= 3
    &&& alphabet.no_duplicates()
}

/// Builds a `sqids::Sqids` with `alphabet` and reports whether the builder
/// accepted it. Claimed: the answer is `sqids_alphabet_accepted(alphabet)`;
/// `build` refuses a character whose `len_utf8()` exceeds 1, fewer than 3
/// characters, and an alphabet whose set of characters is smaller than its
/// length, and nothing else.
#[verifier::external_body]
pub(crate) fn sqids_accepts(alphabet: &[char]) -> (r: bool)
    ensures
        r == sqids_alphabet_accepted(alphabet@),
{
    sqids::Sqids::builder().alphabet(alphabet.to_vec()).build().is_ok()
}

/// The id that `sqids::Sqids::encode(&[number])` yields for a `Sqids` built
/// with `alphabet`, `min_length` and the crate's default blocklist, or `None`
/// where `encode` fails (every candidate id was on its blocklist).
pub uninterp spec fn sqids_encoding(alphabet: Seq<char>, min_length: u8, number: u64) -> Option<
    Seq<char>,
>;

/// `id` is what sqids encodes `number` as, and no other number: it is not
/// empty, it is at least `min_length` characters long, and no other number
/// encodes to it.
pub open spec fn sqids_encodes_only(alphabet: Seq<char>, min_length: u8, number: u64, id: Seq<char>) -> bool {
    &&& sqids_encoding(alphabet, min_length, number) == Some(id)
    &&& id.len() > 0
    &&& id.len() >= min_length
    &&& forall|other: u64| #[trigger] sqids_encoding(alphabet, min_length, other) == Some(id) ==> other == number
}

/// Encodes one number with a `sqids::Sqids` built from `alphabet` and
/// `min_length`. Claimed: the result is `sqids_encoding(alphabet, min_length,
/// number)`, and an id that comes back is `sqids_encodes_only` that number.
/// It is not empty (`encode_numbers` always starts it with a prefix
/// character); it is at least `min_length` characters long (`encode_numbers`
/// pads a shorter id from the shuffled alphabet until its byte length reaches
/// `min_length`, and the builder admits only one-byte characters); and no
/// other number has it (the crate promises unique ids that `decode` turns
/// back into the numbers they encode).
#[verifier::external_body]
pub(crate) fn sqids_encode(alphabet: &[char], min_length: u8, number: u64) -> (r: Option<String>)
    requires
        sqids_alphabet_accepted(alphabet@),
    ensures
        match r {
            Some(id) => sqids_encodes_only(alphabet@, min_length, number, id@),
            None => sqids_encoding(alphabet@, min_length, number) is None,
        },
{
    let built = sqids::Sqids::builder().alphabet(alphabet.to_vec()).min_length(min_length).build();
    match built {
        Ok(s) => s.encode(&[number]).ok(),
        Err(_) => None,
    }
}

/// Whether `argon2::password_hash::PasswordHash::new` parses a PHC string.
pub uninterp spec fn phc_parses(phc: Seq<char>) -> bool;

/// Whether `Argon2::default().verify_password` accepts `password` against
/// the parsed PHC string `phc`.
pub uninterp spec fn argon2_verifies(password: Seq<char>, phc: Seq<char>) -> bool;

/// A PHC string of the Argon2id algorithm: it begins with `$argon2id$`.
pub open spec fn is_argon2id_phc(phc: Seq<char>) -> bool {
    phc.len() >= 10 && phc.subrange(0, 10) == seq!['$', 'a', 'r', 'g', 'o', 'n', '2', 'i', 'd', '$']
}

/// Parses `phc` with `PasswordHash::new`. Claimed: the answer is
/// `phc_parses(phc)`.
#[verifier::external_body]
pub(crate) fn phc_is_valid(phc: &str) -> (r: bool)
    ensures
        r == phc_parses(phc@),
{
    PasswordHash::new(phc).is_ok()
}

/// Checks `password` against the PHC string `phc` with
/// `Argon2::default().verify_password`. Claimed: the answer is
/// `argon2_verifies(password, phc)`, a function of the two texts alone.
#[verifier::external_body]
pub(crate) fn argon2_verify(password: &str, phc: &str) -> (r: bool)
    requires
        phc_parses(phc@),
    ensures
        r == argon2_verifies(password@, phc@),
{
    match PasswordHash::new(phc) {
        Ok(parsed) => argon2::Argon2::default().verify_password(password.as_bytes(), &parsed).is_ok(),
        Err(_) => false,
    }
}

/// Hashes `password` with `Argon2::default().hash_password` under a salt
/// that `SaltString::generate` draws from the operating system's random
/// source, and returns the PHC string. The salt, hence the string, differs
/// from call to call, so no name is given to it. Claimed: a string that comes
/// back parses with `PasswordHash::new` and `verify_password` accepts the same
/// password against it (verification recomputes the hash with the salt and
/// parameters that the string records), and it begins with `$argon2id$`
/// (`Argon2::default()` uses `Algorithm::Argon2id`, and the `PasswordHash`
/// display writes `$`, the algorithm's identifier, then `$` and the rest).
/// Hashing fails, giving `None`, only
/// for a password longer than argon2's `MAX_PWD_LEN` (0xFFFF_FFFF bytes):
/// with the default parameters and a generated 16-byte salt that is the only
/// error `hash_password` reports, whatever the salt.
#[verifier::external_body]
pub(crate) fn argon2_hash_fresh(password: &str) -> (r: Option<String>)
    ensures
        r matches Some(phc) ==> phc_parses(phc@) && argon2_verifies(password@, phc@) && is_argon2id_phc(phc@),
        vstd::utf8::encode_utf8(password@).len() <= 0xFFFF_FFFF ==> r is Some,
{
    let salt = SaltString::generate(&mut argon2::password_hash::rand_core::OsRng);
    match argon2::Argon2::default().hash_password(password.as_bytes(), &salt) {
        Ok(h) => Some(h.to_string()),
        Err(_) => None,
    }
}

/// `constant_time_eq::constant_time_eq` compares two byte strings in
/// constant time. Claimed: it answers whether they are equal.
pub assume_specification[ constant_time_eq::constant_time_eq ](a: &[u8], b: &[u8]) -> (r: bool)
    ensures
        r == (a@ == b@),
;

/// A Unix time in seconds that a `chrono::DateTime<Utc>` can hold: chrono's
/// dates run from `DateTime::<Utc>::MIN_UTC` to `MAX_UTC` (years -262143 to
/// 262142), whose timestamps lie well within ten trillion seconds of the epoch.
pub open spec fn chrono_timestamp_in_range(t: i64) -> bool {
    -10_000_000_000_000 <= t && t <= 10_000_000_000_000
}

/// The current Unix time in seconds, from `chrono::Utc::now().timestamp()`.
/// Claimed: only that it is a timestamp that a `DateTime<Utc>` can hold;
/// which one is the clock's.
#[verifier::external_body]
pub(crate) fn unix_now() -> (t: i64)
    ensures
        chrono_timestamp_in_range(t),
{
    chrono::Utc::now().timestamp()
}

/// The bytes that `base64::prelude::BASE64_STANDARD.decode` gives for a
/// text, or `None` where it reports an error.
pub uninterp spec fn base64_standard_decoding(text: Seq<char>) -> Option<Seq<u8>>;

/// Decodes `text` with `BASE64_STANDARD.decode`. Claimed: the result is
/// `base64_standard_decoding(text)`.
#[verifier::external_body]
pub(crate) fn decode_base64_standard(text: &str) -> (r: Option<Vec<u8>>)
    ensures
        match r {
            Some(bytes) => base64_standard_decoding(text@) == Some(bytes@),
            None => base64_standard_decoding(text@) is None,
        },
{
    base64::prelude::BASE64_STANDARD.decode(text).ok()
}

/// `cookie::Key` (re-exported by `axum_extra::extract::cookie`), the key
/// that signs and encrypts the private cookies, carried unread.
#[verifier::external_type_specification]
#[verifier::external_body]
pub struct ExCookieKey(axum_extra::extract::cookie::Key);

/// The cookie key that `Key::try_from` builds from 64 bytes of key material.
pub uninterp spec fn cookie_key_of(material: Seq<u8>) -> axum_extra::extract::cookie::Key;

/// Builds a cookie key from key material with `Key::try_from`. Claimed: it
/// succeeds exactly when there are at least 64 bytes (`COMBINED_KEY_LENGTH`:
/// a 32-byte signing key and a 32-byte encryption key), and the key is
/// `cookie_key_of` the first 64 bytes, which it copies and nothing else.
#[verifier::external_body]
pub(crate) fn cookie_key_from(bytes: &[u8]) -> (r: Option<axum_extra::extract::cookie::Key>)
    ensures
        r is Some <==> bytes@.len() >= 64,
        r matches Some(k) ==> k == cookie_key_of(bytes@.take(64)),
{
    axum_extra::extract::cookie::Key::try_from(bytes).ok()
}

/// `chrono::NaiveDateTime`, carried through click records unread.
#[verifier::external_type_specification]
#[verifier::external_body]
pub struct ExNaiveDateTime(chrono::NaiveDateTime);

} // verus!
