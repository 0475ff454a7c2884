use ejustice_mcp::strmap::StrMap;
use ejustice_mcp::text::{
    normalize_whitespace, split_on_pattern, starts_with, strip_prefix, take_prefix_chars,
    trim_end_matches_char, trim_matches_char, trim_whitespace,
};

#[test]
fn whitespace_is_collapsed() {
    assert_eq!(normalize_whitespace("  a\t b \n\n c  "), "a b c");
    assert_eq!(normalize_whitespace("   "), "");
    assert_eq!(normalize_whitespace("x\u{A0}y"), "x y");
}

#[test]
fn normalizing_twice_changes_nothing() {
    let once = normalize_whitespace("  Case \r\n  Parties ");
    assert_eq!(normalize_whitespace(&once), once);
}

#[test]
fn trims() {
    assert_eq!(trim_whitespace("  ab c \n"), "ab c");
    assert_eq!(trim_end_matches_char("https://x/y///", '/'), "https://x/y");
    assert_eq!(trim_matches_char("\"a.pdf\"", '"'), "a.pdf");
}

#[test]
fn prefixes() {
    assert!(starts_with("filename=a", "filename="));
    assert!(!starts_with("file", "filename="));
    assert_eq!(strip_prefix("abc", "ab"), Some("c".to_string()));
    assert_eq!(strip_prefix("abc", "b"), None);
}

#[test]
fn splitting() {
    let s: Vec<char> = "a;b;;c".chars().collect();
    let p: Vec<char> = ";".chars().collect();
    assert_eq!(split_on_pattern(&s, &p), vec!["a", "b", "", "c"]);
}

#[test]
fn taking_characters() {
    assert_eq!(take_prefix_chars("h\u{e9}llo", 2), "h\u{e9}");
    assert_eq!(take_prefix_chars("hi", 5), "hi");
}

#[test]
fn map_insert_replaces() {
    let mut m = StrMap::new();
    m.insert("a".to_string(), "1".to_string());
    m.insert("b".to_string(), "2".to_string());
    m.insert("a".to_string(), "3".to_string());
    assert_eq!(m.len(), 2);
    assert_eq!(m.get("a").map(|s| s.as_str()), Some("3"));
    assert_eq!(m.get("b").map(|s| s.as_str()), Some("2"));
    assert_eq!(m.get("c"), None);
    assert_eq!(
        m.into_entries(),
        vec![("a".to_string(), "3".to_string()), ("b".to_string(), "2".to_string())]
    );
}
