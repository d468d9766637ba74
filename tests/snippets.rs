use codectrl::decimal::{parse_u32, u32_text};
use codectrl::{CodeSnippet, SnippetKeyError};

fn ten_lines() -> Vec<String> {
    (1..=10).map(|n| format!("  text of line {n}")).collect()
}

fn keys(s: &CodeSnippet) -> Vec<u32> {
    s.0.keys().copied().collect()
}

#[test]
fn window_at_first_line() {
    assert_eq!(keys(&CodeSnippet::extract(&ten_lines(), 1, 3)), vec![1, 2, 3, 4]);
}

#[test]
fn window_at_last_line() {
    assert_eq!(keys(&CodeSnippet::extract(&ten_lines(), 10, 3)), vec![7, 8, 9, 10]);
}

#[test]
fn window_in_the_middle() {
    let s = CodeSnippet::extract(&ten_lines(), 5, 3);
    assert_eq!(keys(&s), vec![2, 3, 4, 5, 6, 7, 8]);
    assert_eq!(s.0[&2], "  text of line 2");
    assert_eq!(s.0[&8], "  text of line 8");
}

#[test]
fn window_of_empty_file() {
    assert!(CodeSnippet::extract(&Vec::new(), 1, 3).0.is_empty());
}

#[test]
fn window_with_zero_radius() {
    assert_eq!(keys(&CodeSnippet::extract(&ten_lines(), 4, 0)), vec![4]);
}

#[test]
fn window_past_the_end() {
    assert!(CodeSnippet::extract(&ten_lines(), 20, 3).0.is_empty());
    assert_eq!(keys(&CodeSnippet::extract(&ten_lines(), 12, 3)), vec![9, 10]);
}

#[test]
fn window_with_huge_radius() {
    assert_eq!(keys(&CodeSnippet::extract(&ten_lines(), u32::MAX, u32::MAX)).len(), 10);
}

#[test]
fn new_and_default_are_empty() {
    assert!(CodeSnippet::new().0.is_empty());
    assert_eq!(CodeSnippet::default(), CodeSnippet::new());
}

#[test]
fn entries_round_trip() {
    let s = CodeSnippet::extract(&ten_lines(), 5, 3);
    let entries = s.to_entries();
    assert_eq!(entries[0], ("2".to_string(), "  text of line 2".to_string()));
    assert_eq!(CodeSnippet::from_entries(&entries), Ok(s.clone()));
    let mut reversed = entries.clone();
    reversed.reverse();
    assert_eq!(CodeSnippet::from_entries(&reversed), Ok(s));
}

#[test]
fn entries_with_bad_key() {
    let entries = vec![
        ("3".to_string(), "a".to_string()),
        ("x1".to_string(), "b".to_string()),
        ("-2".to_string(), "c".to_string()),
    ];
    assert_eq!(
        CodeSnippet::from_entries(&entries),
        Err(SnippetKeyError { key: "x1".to_string() })
    );
}

#[test]
fn entries_later_key_wins() {
    let entries = vec![("+7".to_string(), "a".to_string()), ("007".to_string(), "b".to_string())];
    let s = CodeSnippet::from_entries(&entries).unwrap();
    assert_eq!(s.0.len(), 1);
    assert_eq!(s.0[&7], "b");
}

#[test]
fn decimal_text_of_u32() {
    assert_eq!(u32_text(0), "0");
    assert_eq!(u32_text(42), "42");
    assert_eq!(u32_text(u32::MAX), "4294967295");
}

#[test]
fn parse_of_u32_text() {
    assert_eq!(parse_u32("4294967295"), Some(u32::MAX));
    assert_eq!(parse_u32("4294967296"), None);
    assert_eq!(parse_u32("+12"), Some(12));
    assert_eq!(parse_u32("+"), None);
    assert_eq!(parse_u32(""), None);
    assert_eq!(parse_u32("-1"), None);
    assert_eq!(parse_u32(" 1"), None);
    assert_eq!(parse_u32("0010"), Some(10));
}
