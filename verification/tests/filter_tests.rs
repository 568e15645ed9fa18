use mpv_subtitleminer::filter::StyleFilter;

#[test]
fn default_filter_keeps_default_style_only() {
    let f = StyleFilter::from_lists("", "Default", "", "");
    assert!(f.allows("Default", "Alice"));
    assert!(!f.allows("Sign", "Alice"));
}

#[test]
fn empty_filter_keeps_everything() {
    let f = StyleFilter::from_lists("", "", "", "");
    assert!(f.allows("Anything", ""));
    assert!(f.allows("", "Bob"));
}

#[test]
fn blocklist_wins_over_allowlist() {
    let f = StyleFilter::from_lists("Sign, Karaoke", "Default,Sign", "", "");
    assert!(!f.allows("Sign", "x"));
    assert!(!f.allows("Karaoke", "x"));
    assert!(f.allows("Default", "x"));
}

#[test]
fn name_lists_filter_by_name() {
    let f = StyleFilter::from_lists("", "", "Narrator", " Alice , Bob ");
    assert!(f.allows("Default", "Alice"));
    assert!(f.allows("Default", "Bob"));
    assert!(!f.allows("Default", "Carol"));
    assert!(!f.allows("Default", "Narrator"));
}

#[test]
fn from_lists_parses_each_list() {
    let f = StyleFilter::from_lists("a,b", " c ", "", "d,,e");
    assert_eq!(f.style_blocklist, vec!["a".to_string(), "b".to_string()]);
    assert_eq!(f.style_allowlist, vec!["c".to_string()]);
    assert!(f.name_blocklist.is_empty());
    assert_eq!(f.name_allowlist, vec!["d".to_string(), "e".to_string()]);
}
