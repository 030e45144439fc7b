use agent_browser_native::text::{
    chars_equal, contains, eq_ignore_ascii_case, matches_at, same_text, starts_with, to_chars,
    utf8_len,
};

#[test]
fn chars_of_text() {
    assert_eq!(to_chars("héllo"), vec!['h', 'é', 'l', 'l', 'o']);
    assert_eq!(to_chars(""), Vec::<char>::new());
}

#[test]
fn byte_length_counts_utf8_bytes() {
    assert_eq!(utf8_len("abc"), 3);
    assert_eq!(utf8_len("é"), 2);
    assert_eq!(utf8_len("€"), 3);
    assert_eq!(utf8_len("😀"), 4);
}

#[test]
fn sequence_comparisons() {
    let hay = to_chars("start a post");
    assert!(chars_equal(&hay, &to_chars("start a post")));
    assert!(!chars_equal(&hay, &to_chars("start a pos")));
    assert!(starts_with(&hay, &to_chars("start")));
    assert!(!starts_with(&hay, &to_chars("post")));
    assert!(contains(&hay, &to_chars("a po")));
    assert!(contains(&hay, &to_chars("")));
    assert!(!contains(&hay, &to_chars("pots")));
    assert!(matches_at(&hay, &to_chars("post"), 8));
    assert!(!matches_at(&hay, &to_chars("post"), 9));
    assert!(same_text("a", "a"));
    assert!(!same_text("a", "A"));
}

#[test]
fn ascii_case_folding() {
    assert!(eq_ignore_ascii_case("Button", "bUTTON"));
    assert!(!eq_ignore_ascii_case("button", "buttons"));
    assert!(!eq_ignore_ascii_case("É", "é"));
    assert!(eq_ignore_ascii_case("É", "É"));
}
