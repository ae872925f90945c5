//! Slugs: custom ones that a caller chooses, and generated ones that sqids
//! encodes from a database counter.
use vstd::prelude::*;
use crate::blocklist::Blocklist;
use crate::error::ApiError;
use crate::session::{admin_cookie_name, is_admin_cookie_name};
use crate::outside::{sqids_accepts, sqids_alphabet_accepted, sqids_encode, sqids_encodes_only, sqids_encoding};
use crate::text::chars_of;

verus! {

/// The fewest characters a custom slug may have.
pub const MIN_CUSTOM_SLUG_LEN: usize = 7;

/// The most characters a custom slug may have.
pub const MAX_CUSTOM_SLUG_LEN: usize = 20;

/// How many failed encodings generating one slug survives; the next failure
/// ends it.
pub const MAX_ENCODE_FAILURES: u64 = 5;

/// A character allowed in a custom slug: `[A-Za-z0-9-]`.
pub open spec fn is_slug_char(c: char) -> bool {
    ('a' <= c && c <= 'z') || ('A' <= c && c <= 'Z') || ('0' <= c && c <= '9') || c == '-'
}

/// The verdict on a custom slug: its length in characters is checked
/// first, then its characters, then the blocklist.
pub open spec fn custom_slug_verdict(slug: Seq<char>, blocked: Set<Seq<char>>) -> Result<(), ApiError> {
    if slug.len() < MIN_CUSTOM_SLUG_LEN {
        Err(ApiError::SlugTooShort)
    } else if slug.len() > MAX_CUSTOM_SLUG_LEN {
        Err(ApiError::SlugTooLong)
    } else if !(forall|i: int| 0 <= i < slug.len() ==> is_slug_char(#[trigger] slug[i])) {
        Err(ApiError::SlugInvalidCharacters)
    } else if blocked.contains(slug) {
        Err(ApiError::SlugBanned)
    } else {
        Ok(())
    }
}

/// Checks a custom slug against the length limits, the allowed characters
/// and the slug blocklist.
pub fn check_custom_slug(slug: &String, slug_blocklist: &Blocklist) -> (r: Result<(), ApiError>)
    ensures
        r == custom_slug_verdict(slug@, slug_blocklist@),
{
    let chars = chars_of(slug.as_str());
    if chars.len() < MIN_CUSTOM_SLUG_LEN {
        return Err(ApiError::SlugTooShort);
    }
    if chars.len() > MAX_CUSTOM_SLUG_LEN {
        return Err(ApiError::SlugTooLong);
    }
    let mut i: usize = 0;
    while i < chars.len()
        invariant
            chars@ == slug@,
            0 <= i <= chars@.len(),
            MIN_CUSTOM_SLUG_LEN <= chars@.len() <= MAX_CUSTOM_SLUG_LEN,
            forall|j: int| 0 <= j < i ==> is_slug_char(#[trigger] chars@[j]),
        decreases chars@.len() - i,
    {
        let c = chars[i];
        if !(('a' <= c && c <= 'z') || ('A' <= c && c <= 'Z') || ('0' <= c && c <= '9') || c == '-') {
            assert(!is_slug_char(slug@[i as int]));
            return Err(ApiError::SlugInvalidCharacters);
        }
        i = i + 1;
    }
    if slug_blocklist.contains(slug) {
        return Err(ApiError::SlugBanned);
    }
    Ok(())
}

/// What the custom-slug check answers, for every slug: a slug of fewer than
/// 7 characters is too short; one of more than 20 is too long; otherwise a
/// character outside `[A-Za-z0-9-]` makes it invalid; otherwise a slug on
/// the blocklist is banned; and every other slug is accepted.
pub proof fn lemma_custom_slug_verdict_exact(slug: Seq<char>, blocked: Set<Seq<char>>)
    ensures
        slug.len() < 7 ==> custom_slug_verdict(slug, blocked) == Err::<(), ApiError>(ApiError::SlugTooShort),
        slug.len() > 20 ==> custom_slug_verdict(slug, blocked) == Err::<(), ApiError>(ApiError::SlugTooLong),
        7 <= slug.len() <= 20 && (exists|i: int|
            0 <= i < slug.len() && !(('a' <= #[trigger] slug[i] && slug[i] <= 'z') || ('A' <= slug[i] && slug[i] <= 'Z')
                || ('0' <= slug[i] && slug[i] <= '9') || slug[i] == '-')) ==> custom_slug_verdict(slug, blocked)
            == Err::<(), ApiError>(ApiError::SlugInvalidCharacters),
        7 <= slug.len() <= 20 && (forall|i: int|
            0 <= i < slug.len() ==> (('a' <= #[trigger] slug[i] && slug[i] <= 'z') || ('A' <= slug[i] && slug[i] <= 'Z')
                || ('0' <= slug[i] && slug[i] <= '9') || slug[i] == '-')) ==> custom_slug_verdict(slug, blocked) == (if blocked.contains(
            slug,
        ) {
            Err::<(), ApiError>(ApiError::SlugBanned)
        } else {
            Ok::<(), ApiError>(())
        }),
{
    if 7 <= slug.len() <= 20 {
        if exists|i: int|
            0 <= i < slug.len() && !(('a' <= #[trigger] slug[i] && slug[i] <= 'z') || ('A' <= slug[i] && slug[i] <= 'Z')
                || ('0' <= slug[i] && slug[i] <= '9') || slug[i] == '-') {
            let i = choose|i: int|
                0 <= i < slug.len() && !(('a' <= #[trigger] slug[i] && slug[i] <= 'z') || ('A' <= slug[i] && slug[i]
                    <= 'Z') || ('0' <= slug[i] && slug[i] <= '9') || slug[i] == '-');
            assert(!is_slug_char(slug[i]));
        }
    }
}

/// A custom slug that passes its checks is 7 to 20 characters of
/// `[A-Za-z0-9-]` long, is not on the blocklist, and is not the admin
/// session cookie's name.
pub proof fn lemma_accepted_custom_slug(slug: Seq<char>, blocked: Set<Seq<char>>)
    requires
        custom_slug_verdict(slug, blocked) is Ok,
    ensures
        MIN_CUSTOM_SLUG_LEN <= slug.len() <= MAX_CUSTOM_SLUG_LEN,
        forall|i: int| 0 <= i < slug.len() ==> is_slug_char(#[trigger] slug[i]),
        !blocked.contains(slug),
        slug != admin_cookie_name(),
{
    reveal_strlit("admin");
}

/// The sqids configuration that generated slugs are encoded with.
pub struct SlugEncoder {
    alphabet: Vec<char>,
    min_length: u8,
}

impl SlugEncoder {
    /// sqids accepts the alphabet.
    #[verifier::type_invariant]
    closed spec fn alphabet_accepted(self) -> bool {
        sqids_alphabet_accepted(self.alphabet@)
    }

    /// The alphabet.
    pub closed spec fn alphabet_spec(self) -> Seq<char> {
        self.alphabet@
    }

    /// The minimum length of an encoded id.
    pub closed spec fn min_length_spec(self) -> u8 {
        self.min_length
    }

    /// An encoder with the given alphabet and minimum length, or `None`
    /// where sqids refuses the alphabet.
    pub fn new(alphabet: &str, min_length: u8) -> (r: Option<SlugEncoder>)
        ensures
            r is Some <==> sqids_alphabet_accepted(alphabet@),
            r matches Some(e) ==> e.alphabet_spec() == alphabet@ && e.min_length_spec() == min_length,
    {
        let chars = chars_of(alphabet);
        if sqids_accepts(chars.as_slice()) {
            Some(SlugEncoder { alphabet: chars, min_length })
        } else {
            None
        }
    }

    /// The id that sqids encodes `number` as, or `None` where it fails.
    pub fn encode(&self, number: u64) -> (r: Option<String>)
        ensures
            match r {
                Some(id) => sqids_encodes_only(self.alphabet_spec(), self.min_length_spec(), number, id@),
                None => sqids_encoding(self.alphabet_spec(), self.min_length_spec(), number) is None,
            },
    {
        proof {
            use_type_invariant(self);
        }
        sqids_encode(self.alphabet.as_slice(), self.min_length, number)
    }
}

/// What generating a slug does after one encoding.
#[derive(Debug, PartialEq, Eq)]
pub enum GenerationStep {
    /// The slug to store the link under.
    Accept(String),
    /// Draw a new counter value and encode again.
    Retry,
    /// Give up: too many encodings failed.
    GiveUp,
}

/// The state of generating one slug: how many encodings were made.
pub struct SlugGeneration {
    pub attempts: u64,
}

/// Whether generation drops an id and draws another counter value: an id
/// that is empty, blocked, or the admin session cookie's name (so that no
/// link cookie can pass for the admin session).
pub open spec fn generation_drops(id: Seq<char>, blocked: Set<Seq<char>>) -> bool {
    id.len() == 0 || id == admin_cookie_name() || blocked.contains(id)
}

/// The step that follows an encoding, given the number of encodings made
/// before it: an id that `generation_drops` is dropped and another counter
/// value drawn; a failed encoding ends generation once more than
/// `MAX_ENCODE_FAILURES` encodings were made.
pub open spec fn generation_step_spec(
    attempts_before: u64,
    encoded: Option<Seq<char>>,
    blocked: Set<Seq<char>>,
) -> (u64, GenerationStepView) {
    let attempts = if attempts_before == u64::MAX { u64::MAX } else { (attempts_before + 1) as u64 };
    match encoded {
        Some(id) => if generation_drops(id, blocked) {
            (attempts, GenerationStepView::Retry)
        } else {
            (attempts, GenerationStepView::Accept(id))
        },
        None => if attempts > MAX_ENCODE_FAILURES {
            (attempts, GenerationStepView::GiveUp)
        } else {
            (attempts, GenerationStepView::Retry)
        },
    }
}

/// A generation step with the slug as its text.
pub enum GenerationStepView {
    Accept(Seq<char>),
    Retry,
    GiveUp,
}

impl View for GenerationStep {
    type V = GenerationStepView;

    open spec fn view(&self) -> GenerationStepView {
        match self {
            GenerationStep::Accept(s) => GenerationStepView::Accept(s@),
            GenerationStep::Retry => GenerationStepView::Retry,
            GenerationStep::GiveUp => GenerationStepView::GiveUp,
        }
    }
}

/// The text of an optional string.
pub open spec fn opt_view(s: Option<String>) -> Option<Seq<char>> {
    match s {
        Some(x) => Some(x@),
        None => None,
    }
}

/// What one generation step can end in: an accepted slug is the encoding
/// itself, not empty and not blocked; generation gives up only on a failed
/// encoding once more than `MAX_ENCODE_FAILURES` encodings were made; and
/// every step counts one encoding.
pub proof fn lemma_generation_step_outcomes(attempts: u64, encoded: Option<Seq<char>>, blocked: Set<Seq<char>>)
    requires
        attempts < u64::MAX,
    ensures
        generation_step_spec(attempts, encoded, blocked).0 == attempts + 1,
        generation_step_spec(attempts, encoded, blocked).1 matches GenerationStepView::Accept(id) ==> encoded
            == Some(id) && id.len() > 0 && id != admin_cookie_name() && !blocked.contains(id),
        generation_step_spec(attempts, encoded, blocked).1 matches GenerationStepView::GiveUp ==> encoded is None
            && attempts + 1 > MAX_ENCODE_FAILURES,
        encoded is None && attempts + 1 <= MAX_ENCODE_FAILURES ==> generation_step_spec(attempts, encoded, blocked).1
            is Retry,
{
}

/// Generating one slug draws a bounded number of counter values: in a run
/// of generation steps over distinct counter values, starting from no
/// encodings, in which every step says to draw again, there are at most
/// `MAX_ENCODE_FAILURES` failed encodings and at most one more dropped id
/// than the blocklist has entries, since sqids gives no two numbers the same
/// id and a dropped id is either blocked or the admin session cookie's name.
/// Each id that comes back is `sqids_encodes_only` its number, as
/// `SlugEncoder::encode` ensures.
pub proof fn lemma_generation_draws_are_bounded(
    alphabet: Seq<char>,
    min_length: u8,
    numbers: Seq<u64>,
    blocked: Set<Seq<char>>,
)
    requires
        blocked.finite(),
        numbers.no_duplicates(),
        numbers.len() <= u64::MAX,
        forall|i: int|
            0 <= i < numbers.len() ==> (#[trigger] sqids_encoding(alphabet, min_length, numbers[i]) matches Some(
                id,
            ) ==> sqids_encodes_only(alphabet, min_length, numbers[i], id)),
        forall|i: int|
            0 <= i < numbers.len() ==> (generation_step_spec(
                i as u64,
                #[trigger] sqids_encoding(alphabet, min_length, numbers[i]),
                blocked,
            ).1 is Retry),
    ensures
        numbers.len() <= blocked.len() + 1 + MAX_ENCODE_FAILURES,
{
    let n = numbers.len() as int;
    let range = vstd::set_lib::set_int_range(0, n);
    vstd::set_lib::lemma_int_range(0, n);
    let failed = range.filter(|i: int| sqids_encoding(alphabet, min_length, numbers[i]) is None);
    let dropped = range.filter(|i: int| sqids_encoding(alphabet, min_length, numbers[i]) is Some);
    range.lemma_len_filter(|i: int| sqids_encoding(alphabet, min_length, numbers[i]) is None);
    range.lemma_len_filter(|i: int| sqids_encoding(alphabet, min_length, numbers[i]) is Some);
    // failures survive only while at most `MAX_ENCODE_FAILURES` encodings were made
    let early = vstd::set_lib::set_int_range(0, MAX_ENCODE_FAILURES as int);
    vstd::set_lib::lemma_int_range(0, MAX_ENCODE_FAILURES as int);
    assert forall|i: int| failed.contains(i) implies early.contains(i) by {
        assert(generation_step_spec(i as u64, sqids_encoding(alphabet, min_length, numbers[i]), blocked).1 is Retry);
    }
    vstd::set_lib::lemma_len_subset(failed, early);
    // each dropped id belongs to one counter value and is blocked or the admin name
    let id_of = |i: int| sqids_encoding(alphabet, min_length, numbers[i])->0;
    let allowed = blocked.insert(admin_cookie_name());
    assert forall|i: int, j: int| dropped.contains(i) && dropped.contains(j) && #[trigger] id_of(i) == #[trigger] id_of(
        j,
    ) implies i == j by {
        assert(sqids_encodes_only(alphabet, min_length, numbers[i], id_of(i)));
        assert(sqids_encodes_only(alphabet, min_length, numbers[j], id_of(j)));
        assert(sqids_encoding(alphabet, min_length, numbers[j]) == Some(id_of(i)));
    }
    assert forall|x: Seq<char>| dropped.map(id_of).contains(x) implies allowed.contains(x) by {
        let i = choose|i: int| dropped.contains(i) && id_of(i) == x;
        assert(sqids_encodes_only(alphabet, min_length, numbers[i], id_of(i)));
        assert(generation_step_spec(i as u64, sqids_encoding(alphabet, min_length, numbers[i]), blocked).1 is Retry);
        assert(generation_drops(x, blocked));
    }
    vstd::set_lib::lemma_map_size(dropped, dropped.map(id_of), id_of);
    vstd::set_lib::lemma_len_subset(dropped.map(id_of), allowed);
    assert(range =~= dropped.union(failed));
    vstd::set_lib::lemma_len_union(dropped, failed);
}

impl SlugGeneration {
    /// A generation that has made no encoding yet.
    pub fn new() -> (g: SlugGeneration)
        ensures
            g.attempts == 0,
    {
        SlugGeneration { attempts: 0 }
    }

    /// Takes the result of one encoding and says what to do next.
    pub fn advance(&mut self, encoded: Option<String>, slug_blocklist: &Blocklist) -> (step: GenerationStep)
        ensures
            (final(self).attempts, step@) == generation_step_spec(
                old(self).attempts,
                opt_view(encoded),
                slug_blocklist@,
            ),
    {
        self.attempts = self.attempts.saturating_add(1);
        match encoded {
            Some(id) => {
                if id.as_str().is_empty() || is_admin_cookie_name(&id) || slug_blocklist.contains(&id) {
                    GenerationStep::Retry
                } else {
                    GenerationStep::Accept(id)
                }
            },
            None => {
                if self.attempts > MAX_ENCODE_FAILURES {
                    GenerationStep::GiveUp
                } else {
                    GenerationStep::Retry
                }
            },
        }
    }

    /// Encodes the counter value `row_id` (taken as `u64`, as `as` converts
    /// it) and says what to do next.
    pub fn step(&mut self, encoder: &SlugEncoder, row_id: i64, slug_blocklist: &Blocklist) -> (step: GenerationStep)
        ensures
            (final(self).attempts, step@) == generation_step_spec(
                old(self).attempts,
                sqids_encoding(encoder.alphabet_spec(), encoder.min_length_spec(), row_id as u64),
                slug_blocklist@,
            ),
            step@ matches GenerationStepView::Accept(s) ==> sqids_encodes_only(
                encoder.alphabet_spec(),
                encoder.min_length_spec(),
                row_id as u64,
                s,
            ),
    {
        let encoded = encoder.encode(row_id as u64);
        self.advance(encoded, slug_blocklist)
    }
}

} // verus!
