use url_shortener::blocklist::Blocklist;
use url_shortener::error::ApiError;
use url_shortener::slug::{check_custom_slug, GenerationStep, SlugEncoder, SlugGeneration};

const ALPHABET: &str = "pgQHqibXSKe4N06t7sPD3IuZc8C9EmylzjGMaVJFBWOR21wnoUYf5LxArhvkTd";

fn slug(s: &str) -> String {
    s.to_string()
}

#[test]
fn custom_slug_length_limits() {
    let none = Blocklist::new();
    assert_eq!(check_custom_slug(&slug("abcdef"), &none), Err(ApiError::SlugTooShort));
    assert_eq!(check_custom_slug(&slug("abcdefg"), &none), Ok(()));
    assert_eq!(check_custom_slug(&slug("a".repeat(20).as_str()), &none), Ok(()));
    assert_eq!(check_custom_slug(&slug("a".repeat(21).as_str()), &none), Err(ApiError::SlugTooLong));
    assert_eq!(check_custom_slug(&slug(""), &none), Err(ApiError::SlugTooShort));
}

#[test]
fn custom_slug_charset() {
    let none = Blocklist::new();
    assert_eq!(check_custom_slug(&slug("my-link-1"), &none), Ok(()));
    assert_eq!(check_custom_slug(&slug("my_link_1"), &none), Err(ApiError::SlugInvalidCharacters));
    assert_eq!(check_custom_slug(&slug("my link 1"), &none), Err(ApiError::SlugInvalidCharacters));
    assert_eq!(check_custom_slug(&slug("ABCxyz09"), &none), Ok(()));
}

#[test]
fn custom_slug_length_counts_characters() {
    let none = Blocklist::new();
    // six characters (seven bytes): too short
    assert_eq!(check_custom_slug(&slug("ábcdef"), &none), Err(ApiError::SlugTooShort));
    // eleven characters (twenty-two bytes): within the limits, but not of the allowed set
    assert_eq!(check_custom_slug(&slug("ééééééééééé"), &none), Err(ApiError::SlugInvalidCharacters));
    // twenty-one characters: too long
    assert_eq!(check_custom_slug(&slug("é".repeat(21).as_str()), &none), Err(ApiError::SlugTooLong));
}

#[test]
fn custom_slug_blocklist() {
    let blocked = Blocklist::from_text("badword1\nforbidden\n");
    assert_eq!(check_custom_slug(&slug("badword1"), &blocked), Err(ApiError::SlugBanned));
    assert_eq!(check_custom_slug(&slug("badword2"), &blocked), Ok(()));
    // the length is checked before the blocklist
    let short = Blocklist::from_text("bad");
    assert_eq!(check_custom_slug(&slug("bad"), &short), Err(ApiError::SlugTooShort));
}

#[test]
fn encoder_rejects_bad_alphabets() {
    assert!(SlugEncoder::new(ALPHABET, 4).is_some());
    assert!(SlugEncoder::new("ab", 4).is_none());
    assert!(SlugEncoder::new("aab", 4).is_none());
    assert!(SlugEncoder::new("abc", 4).is_some());
    assert!(SlugEncoder::new("abé", 4).is_none());
}

#[test]
fn encoder_matches_sqids() {
    let enc = SlugEncoder::new(ALPHABET, 4).unwrap();
    let sqids = sqids::Sqids::builder()
        .alphabet(ALPHABET.chars().collect())
        .min_length(4)
        .build()
        .unwrap();
    for n in [0u64, 1, 2, 42, 1000, 123456789] {
        let id = enc.encode(n).unwrap();
        assert_eq!(id, sqids.encode(&[n]).unwrap());
        assert!(id.len() >= 4);
        assert_ne!(id, n.to_string());
    }
}

#[test]
fn generation_accepts_an_unblocked_id() {
    let blocked = Blocklist::new();
    let mut g = SlugGeneration::new();
    assert_eq!(g.advance(Some("Xy7k".to_string()), &blocked), GenerationStep::Accept("Xy7k".to_string()));
    assert_eq!(g.attempts, 1);
}

#[test]
fn generation_retries_on_a_blocked_or_empty_id() {
    let blocked = Blocklist::from_text("Xy7k");
    let mut g = SlugGeneration::new();
    assert_eq!(g.advance(Some("Xy7k".to_string()), &blocked), GenerationStep::Retry);
    assert_eq!(g.advance(Some(String::new()), &blocked), GenerationStep::Retry);
    // blocked ids never end generation, however many there are
    for _ in 0..10 {
        assert_eq!(g.advance(Some("Xy7k".to_string()), &blocked), GenerationStep::Retry);
    }
    assert_eq!(g.attempts, 12);
}

#[test]
fn generation_gives_up_after_too_many_failures() {
    let blocked = Blocklist::new();
    let mut g = SlugGeneration::new();
    for _ in 0..5 {
        assert_eq!(g.advance(None, &blocked), GenerationStep::Retry);
    }
    assert_eq!(g.advance(None, &blocked), GenerationStep::GiveUp);
    assert_eq!(g.attempts, 6);
}

#[test]
fn generation_step_encodes_the_row_id() {
    let enc = SlugEncoder::new(ALPHABET, 4).unwrap();
    let expected = enc.encode(7).unwrap();
    let mut g = SlugGeneration::new();
    assert_eq!(g.step(&enc, 7, &Blocklist::new()), GenerationStep::Accept(expected.clone()));
    let blocked = Blocklist::from_lines(vec![expected]);
    let mut g2 = SlugGeneration::new();
    assert_eq!(g2.step(&enc, 7, &blocked), GenerationStep::Retry);
}

#[test]
fn generation_drops_the_admin_cookie_name() {
    let blocked = Blocklist::new();
    let mut g = SlugGeneration::new();
    assert_eq!(g.advance(Some("admin".to_string()), &blocked), GenerationStep::Retry);
    assert_eq!(g.advance(Some("admin1".to_string()), &blocked), GenerationStep::Accept("admin1".to_string()));
    assert_eq!(g.attempts, 2);
}

#[test]
fn encoder_ids_are_padded_and_distinct() {
    let enc = SlugEncoder::new(ALPHABET, 9).unwrap();
    let mut seen: Vec<String> = Vec::new();
    for n in 0u64..300 {
        let id = enc.encode(n).unwrap();
        assert!(id.chars().count() >= 9);
        assert!(!seen.contains(&id));
        seen.push(id);
    }
}

#[test]
fn blocked_ids_are_dropped_once_each() {
    // every blocked id belongs to one counter value, so with the ids of the
    // first five values blocked the sixth value is accepted
    let enc = SlugEncoder::new(ALPHABET, 4).unwrap();
    let ids: Vec<String> = (1u64..=5).map(|n| enc.encode(n).unwrap()).collect();
    let blocked = Blocklist::from_lines(ids);
    let mut g = SlugGeneration::new();
    for row in 1i64..=5 {
        assert_eq!(g.step(&enc, row, &blocked), GenerationStep::Retry);
    }
    assert_eq!(g.step(&enc, 6, &blocked), GenerationStep::Accept(enc.encode(6).unwrap()));
    assert_eq!(g.attempts, 6);
}
