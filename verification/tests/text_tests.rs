use mpv_subtitleminer::parse_list;
use mpv_subtitleminer::text::{is_white_space, push_decimal};

#[test]
fn parse_list_trims_and_drops_empty_items() {
    assert_eq!(parse_list("a, b ,,c"), vec!["a".to_string(), "b".to_string(), "c".to_string()]);
}

#[test]
fn parse_list_of_empty_string_is_empty() {
    assert!(parse_list("").is_empty());
}

#[test]
fn parse_list_single_item() {
    assert_eq!(parse_list("Default"), vec!["Default".to_string()]);
}

#[test]
fn parse_list_only_separators_and_spaces() {
    assert!(parse_list(" , ,\t,").is_empty());
}

#[test]
fn parse_list_trims_unicode_whitespace() {
    assert_eq!(parse_list("\u{3000}Sign\u{a0}, Top\u{2009}"), vec!["Sign".to_string(), "Top".to_string()]);
}

#[test]
fn parse_list_keeps_inner_spaces() {
    assert_eq!(parse_list(" Main Dialogue ,x"), vec!["Main Dialogue".to_string(), "x".to_string()]);
}

#[test]
fn parse_list_items_are_trimmed_without_commas() {
    for input in ["a,b", " ,x y, ,\u{85}z\u{85}", ",,,", "one", "  lead,trail  "] {
        for item in parse_list(input) {
            assert!(!item.is_empty());
            assert!(!item.contains(','));
            assert_eq!(item.trim(), item.as_str());
        }
    }
}

#[test]
fn is_white_space_agrees_with_std() {
    for u in 0u32..0x11000 {
        if let Some(c) = char::from_u32(u) {
            assert_eq!(is_white_space(c), c.is_whitespace(), "code point {:x}", u);
        }
    }
}

#[test]
fn push_decimal_renders_numbers() {
    let mut s = String::from("x=");
    push_decimal(&mut s, 0);
    assert_eq!(s, "x=0");
    let mut s = String::new();
    push_decimal(&mut s, 1234567890);
    assert_eq!(s, "1234567890");
    let mut s = String::new();
    push_decimal(&mut s, u64::MAX);
    assert_eq!(s, u64::MAX.to_string());
    let mut s = String::new();
    push_decimal(&mut s, 10);
    assert_eq!(s, "10");
}

#[test]
fn parse_list_reads_back_a_joined_list() {
    let v = vec!["Default".to_string(), "Main Top".to_string(), "x".to_string()];
    assert_eq!(parse_list(&v.join(",")), v);
    let empty: Vec<String> = Vec::new();
    assert_eq!(parse_list(&empty.join(",")), empty);
}

#[test]
fn parse_list_of_joined_texts_concatenates() {
    let cases = [("a, b", " c"), ("", "x"), (" ,", ""), ("p\u{3000}", ",q,")];
    for (a, b) in cases {
        let mut expected = parse_list(a);
        expected.extend(parse_list(b));
        assert_eq!(parse_list(&format!("{},{}", a, b)), expected);
    }
}

#[test]
fn parse_list_is_idempotent() {
    for s in [" a ,, b\t,c ", "", ",,,", "\u{a0}only\u{a0}"] {
        let once = parse_list(s);
        assert_eq!(parse_list(&once.join(",")), once);
    }
}
