use url_shortener::blocklist::{lines, Blocklist};

#[test]
fn lines_split_on_newlines() {
    assert_eq!(lines("a\nb\r\nc"), vec!["a", "b", "c"]);
    assert_eq!(lines("a\n"), vec!["a"]);
    assert_eq!(lines(""), Vec::<String>::new());
    assert_eq!(lines("\n"), vec![""]);
    assert_eq!(lines("a\n\nb"), vec!["a", "", "b"]);
}

#[test]
fn lines_keep_a_lone_carriage_return_at_the_end() {
    assert_eq!(lines("a\r"), vec!["a\r"]);
    assert_eq!(lines("a\r\n"), vec!["a"]);
}

#[test]
fn lines_agree_with_std() {
    for text in ["x\ny", "x\r\ny\r\n", "\r\n\r\n", "one", "tail\r", "a\rb\nc", "évil.com\nbad.org\n"] {
        let expected: Vec<String> = text.lines().map(|s| s.to_string()).collect();
        assert_eq!(lines(text), expected, "text {:?}", text);
    }
}

#[test]
fn blocklist_from_text_holds_each_line() {
    let b = Blocklist::from_text("evil.com\r\nbad.org\nevil.com\n");
    assert!(b.contains(&"evil.com".to_string()));
    assert!(b.contains(&"bad.org".to_string()));
    assert!(!b.contains(&"good.com".to_string()));
    assert!(!b.contains(&"evil.co".to_string()));
}

#[test]
fn empty_blocklist_blocks_nothing() {
    let b = Blocklist::new();
    assert!(!b.contains(&"".to_string()));
    assert!(!b.contains(&"anything".to_string()));
}

#[test]
fn blocklist_insert_and_from_lines() {
    let mut b = Blocklist::from_lines(vec!["a".to_string(), "b".to_string()]);
    assert!(b.contains(&"a".to_string()));
    b.insert("c".to_string());
    b.insert("a".to_string());
    assert!(b.contains(&"c".to_string()));
    assert!(b.contains(&"b".to_string()));
}
