use mpv_subtitleminer::ass::ass_allows;
use mpv_subtitleminer::filter::StyleFilter;

#[test]
fn ass_allows_reads_style_and_name_fields() {
    let f = StyleFilter::from_lists("Sign", "", "", "Alice");
    assert!(ass_allows(&f, "Dialogue: 0,0:00:01.00,0:00:02.00, Default ,Alice,0,0,0,,Hi, there"));
    assert!(!ass_allows(&f, "Dialogue: 0,0:00:01.00,0:00:02.00,Default,Bob,0,0,0,,Hi"));
    assert!(!ass_allows(&f, "Dialogue: 0,0:00:01.00,0:00:02.00,Sign,Alice,0,0,0,,EXIT"));
}

#[test]
fn ass_allows_keeps_when_any_event_passes() {
    let f = StyleFilter::from_lists("", "Default", "", "");
    let text = "Dialogue: 0,0:00:01.00,0:00:02.00,Sign,,0,0,0,,EXIT\nDialogue: 0,0:00:01.00,0:00:02.00,Default,,0,0,0,,Hi\n";
    assert!(ass_allows(&f, text));
    assert!(!ass_allows(&f, "Dialogue: 0,0:00:01.00,0:00:02.00,Sign,,0,0,0,,EXIT"));
}

#[test]
fn ass_allows_keeps_text_without_events() {
    let f = StyleFilter::from_lists("", "Default", "", "");
    assert!(ass_allows(&f, ""));
    assert!(ass_allows(&f, "plain text"));
    assert!(ass_allows(&f, "Dialogue: too,few,fields"));
    assert!(ass_allows(&f, "Comment: 0,0:00:01.00,0:00:02.00,Sign,,0,0,0,,x"));
}
