use url_shortener::blocklist::Blocklist;
use url_shortener::create::{CreateAction, LinkCreation};
use url_shortener::error::ApiError;
use url_shortener::link::NewLink;
use url_shortener::slug::SlugEncoder;

const ALPHABET: &str = "pgQHqibXSKe4N06t7sPD3IuZc8C9EmylzjGMaVJFBWOR21wnoUYf5LxArhvkTd";

fn link(slug: Option<&str>) -> NewLink {
    NewLink { long_url: "https://example.com".to_string(), slug: slug.map(|s| s.to_string()), password_hash: None }
}

#[test]
fn custom_slug_is_inserted_directly() {
    let enc = SlugEncoder::new(ALPHABET, 4).unwrap();
    let none = Blocklist::new();
    let (mut flow, action) = LinkCreation::start(&link(Some("my-slug1")));
    assert_eq!(action, CreateAction::InsertLink { slug: "my-slug1".to_string(), in_transaction: false });
    assert_eq!(flow.on_outcome(Ok(0), &enc, &none), CreateAction::Finish(Ok("my-slug1".to_string())));
    assert!(flow.is_finished());
}

#[test]
fn taken_custom_slug_is_reported() {
    let enc = SlugEncoder::new(ALPHABET, 4).unwrap();
    let none = Blocklist::new();
    let (mut flow, _) = LinkCreation::start(&link(Some("my-slug1")));
    assert_eq!(flow.on_outcome(Err(()), &enc, &none), CreateAction::Finish(Err(ApiError::SlugTaken)));
}

#[test]
fn generated_slug_goes_through_a_transaction() {
    let enc = SlugEncoder::new(ALPHABET, 4).unwrap();
    let none = Blocklist::new();
    let expected = enc.encode(1).unwrap();
    let (mut flow, action) = LinkCreation::start(&link(None));
    assert_eq!(action, CreateAction::BeginTransaction);
    assert_eq!(flow.on_outcome(Ok(0), &enc, &none), CreateAction::InsertCounter);
    assert_eq!(
        flow.on_outcome(Ok(1), &enc, &none),
        CreateAction::InsertLink { slug: expected.clone(), in_transaction: true }
    );
    assert_eq!(flow.on_outcome(Ok(0), &enc, &none), CreateAction::Commit);
    assert_eq!(flow.on_outcome(Ok(0), &enc, &none), CreateAction::Finish(Ok(expected)));
    assert!(flow.is_finished());
}

#[test]
fn blocked_generated_slug_draws_another_counter() {
    let enc = SlugEncoder::new(ALPHABET, 4).unwrap();
    let blocked = Blocklist::from_lines(vec![enc.encode(1).unwrap()]);
    let second = enc.encode(2).unwrap();
    let (mut flow, _) = LinkCreation::start(&link(None));
    flow.on_outcome(Ok(0), &enc, &blocked);
    assert_eq!(flow.on_outcome(Ok(1), &enc, &blocked), CreateAction::InsertCounter);
    assert_eq!(
        flow.on_outcome(Ok(2), &enc, &blocked),
        CreateAction::InsertLink { slug: second, in_transaction: true }
    );
}

#[test]
fn store_failures_end_generated_creation() {
    let enc = SlugEncoder::new(ALPHABET, 4).unwrap();
    let none = Blocklist::new();
    let failed = CreateAction::Finish(Err(ApiError::LinkCreationFailed));
    let (mut f1, _) = LinkCreation::start(&link(None));
    assert_eq!(f1.on_outcome(Err(()), &enc, &none), failed);
    let (mut f2, _) = LinkCreation::start(&link(None));
    f2.on_outcome(Ok(0), &enc, &none);
    assert_eq!(f2.on_outcome(Err(()), &enc, &none), failed);
    let (mut f3, _) = LinkCreation::start(&link(None));
    f3.on_outcome(Ok(0), &enc, &none);
    f3.on_outcome(Ok(5), &enc, &none);
    assert_eq!(f3.on_outcome(Err(()), &enc, &none), failed);
    let (mut f4, _) = LinkCreation::start(&link(None));
    f4.on_outcome(Ok(0), &enc, &none);
    f4.on_outcome(Ok(5), &enc, &none);
    f4.on_outcome(Ok(0), &enc, &none);
    assert_eq!(f4.on_outcome(Err(()), &enc, &none), failed);
    assert_eq!(ApiError::LinkCreationFailed.status(), 500);
    assert_eq!(ApiError::LinkCreationFailed.message(), "Failed to create short link.");
}
