use mpv_subtitleminer::filter::StyleFilter;
use mpv_subtitleminer::protocol::{decode_message, MpvMessage};
use mpv_subtitleminer::session::{MpvAction, MpvSession, PendingSubtitle};
use mpv_subtitleminer::store::SubtitleStore;
use mpv_subtitleminer::Subtitle;

fn text(t: &str) -> MpvMessage<i32> {
    MpvMessage::TextChange(Some(t.to_string()))
}

fn reply(id: u64, v: i32) -> MpvMessage<i32> {
    MpvMessage::Reply { request_id: id, data: Some(v), data_str: None }
}

fn ass_reply(id: u64, ass: Option<&str>) -> MpvMessage<i32> {
    MpvMessage::Reply { request_id: id, data: None, data_str: ass.map(|a| a.to_string()) }
}

fn keep_all() -> StyleFilter {
    StyleFilter::from_lists("", "", "", "")
}

fn session() -> MpvSession<i32> {
    MpvSession::new(keep_all())
}

const DEFAULT_LINE: &str = "Dialogue: 0,0:00:01.00,0:00:02.00,Default,Alice,0,0,0,,Hello";
const SIGN_LINE: &str = "Dialogue: 0,0:00:01.00,0:00:02.00,Sign,,0,0,0,,{\\an8}EXIT";

#[test]
fn pending_subtitle_collects_two_responses() {
    let mut p: PendingSubtitle<i32> = PendingSubtitle::new(3, "hi".to_string());
    assert!(!p.is_complete());
    p.set_response(1, 20);
    assert!(!p.is_complete());
    p.set_response(2, 99);
    assert!(!p.is_complete());
    p.set_response(0, 10);
    assert!(p.is_complete());
    assert!(!p.is_ready());
    p.set_style(None);
    assert!(p.is_ready());
    let c = p.into_completed("/a.mkv".to_string(), 2);
    assert_eq!((c.id, c.text.as_str(), c.start, c.end, c.media_path.as_str(), c.aid), (3, "hi", 10, 20, "/a.mkv", 2));
}

#[test]
fn new_subtitle_asks_for_its_timing() {
    let mut s = session();
    match s.step(text("Hello")) {
        Ok(MpvAction::QueryTiming { subtitle_id, text, command }) => {
            assert_eq!(subtitle_id, 1);
            assert_eq!(text, "Hello");
            assert_eq!(
                command,
                "{\"command\":[\"get_property\",\"sub-start\"],\"request_id\":10}\n\
                 {\"command\":[\"get_property\",\"sub-end\"],\"request_id\":11}\n\
                 {\"command\":[\"get_property\",\"sub-text/ass-full\"],\"request_id\":12}\n"
            );
        }
        _ => panic!("expected a timing query"),
    }
    match s.step(text("World")) {
        Ok(MpvAction::QueryTiming { subtitle_id, command, .. }) => {
            assert_eq!(subtitle_id, 2);
            assert!(command.contains("\"request_id\":20}"));
            assert!(command.contains("\"request_id\":21}"));
            assert!(command.contains("\"request_id\":22}"));
        }
        _ => panic!("expected a timing query"),
    }
}

#[test]
fn subtitle_completes_after_all_replies() {
    let mut s = session();
    assert!(matches!(s.step(MpvMessage::PathChange(Some("/v/ep1.mkv".to_string()))), Ok(MpvAction::MediaChanged(_))));
    assert!(matches!(s.step(MpvMessage::AidChange(Some(2))), Ok(MpvAction::Nothing)));
    assert!(matches!(s.step(text("line")), Ok(MpvAction::QueryTiming { .. })));
    assert!(matches!(s.step(reply(10, 100)), Ok(MpvAction::Nothing)));
    assert!(matches!(s.step(reply(11, 200)), Ok(MpvAction::Nothing)));
    match s.step(ass_reply(12, Some(DEFAULT_LINE))) {
        Ok(MpvAction::Completed(c)) => {
            assert_eq!(c.id, 1);
            assert_eq!(c.text, "line");
            assert_eq!(c.start, 100);
            assert_eq!(c.end, 200);
            assert_eq!(c.media_path, "/v/ep1.mkv");
            assert_eq!(c.aid, 2);
        }
        _ => panic!("expected a completed subtitle"),
    }
    // The subtitle has left the session: a late reply changes nothing.
    assert!(matches!(s.step(reply(10, 5)), Ok(MpvAction::Nothing)));
    assert!(matches!(s.step(ass_reply(12, None)), Ok(MpvAction::Nothing)));
}

#[test]
fn replies_in_any_order_complete_too() {
    let mut s = session();
    s.step(text("a")).ok().unwrap();
    s.step(text("b")).ok().unwrap();
    assert!(matches!(s.step(ass_reply(22, None)), Ok(MpvAction::Nothing)));
    assert!(matches!(s.step(reply(21, 8)), Ok(MpvAction::Nothing)));
    match s.step(reply(20, 7)) {
        Ok(MpvAction::Completed(c)) => {
            assert_eq!((c.id, c.start, c.end), (2, 7, 8));
            assert_eq!(c.media_path, "");
            assert_eq!(c.aid, 1);
        }
        _ => panic!("expected the second subtitle"),
    }
}

#[test]
fn replies_outside_the_block_queries_are_ignored() {
    let mut s = session();
    s.step(text("a")).ok().unwrap();
    assert!(matches!(s.step(reply(13, 1)), Ok(MpvAction::Nothing)));
    assert!(matches!(s.step(reply(10, 1)), Ok(MpvAction::Nothing)));
    assert!(matches!(s.step(ass_reply(12, None)), Ok(MpvAction::Nothing)));
    assert!(matches!(s.step(MpvMessage::Reply { request_id: 11, data: None, data_str: None }), Ok(MpvAction::Nothing)));
    assert!(matches!(s.step(reply(11, 2)), Ok(MpvAction::Completed(_))));
}

#[test]
fn unrelated_reply_changes_nothing() {
    let mut s = session();
    assert!(matches!(s.step(reply(1, 4242)), Ok(MpvAction::Nothing)));
    assert!(matches!(s.step(reply(99, 1)), Ok(MpvAction::Nothing)));
    assert!(matches!(s.step(text("x")), Ok(MpvAction::QueryTiming { subtitle_id: 1, .. })));
}

#[test]
fn path_change_announced_once() {
    let mut s = session();
    match s.step(MpvMessage::PathChange(Some("/a.mkv".to_string()))) {
        Ok(MpvAction::MediaChanged(p)) => assert_eq!(p, "/a.mkv"),
        _ => panic!("expected a media change"),
    }
    assert!(matches!(s.step(MpvMessage::PathChange(Some("/a.mkv".to_string()))), Ok(MpvAction::Nothing)));
    assert!(matches!(s.step(MpvMessage::PathChange(None)), Ok(MpvAction::Nothing)));
    assert_eq!(s.current_path().as_deref(), Some("/a.mkv"));
    assert!(matches!(s.step(MpvMessage::PathChange(Some("/b.mkv".to_string()))), Ok(MpvAction::MediaChanged(_))));
    assert_eq!(s.current_path().as_deref(), Some("/b.mkv"));
}

#[test]
fn delay_is_recorded_when_numeric() {
    let mut s = session();
    assert_eq!(*s.sub_delay(), None);
    s.step(MpvMessage::DelayChange(Some(3))).ok().unwrap();
    assert_eq!(*s.sub_delay(), Some(3));
    s.step(MpvMessage::DelayChange(None)).ok().unwrap();
    assert_eq!(*s.sub_delay(), Some(3));
}

#[test]
fn empty_or_missing_text_asks_nothing() {
    let mut s = session();
    assert!(matches!(s.step(text("")), Ok(MpvAction::Nothing)));
    assert!(matches!(s.step(MpvMessage::TextChange(None)), Ok(MpvAction::Nothing)));
    assert!(matches!(s.step(MpvMessage::Ignored), Ok(MpvAction::Nothing)));
    assert!(matches!(s.step(text("x")), Ok(MpvAction::QueryTiming { subtitle_id: 1, .. })));
}

#[test]
fn aid_defaults_to_one_and_follows_changes() {
    let mut s = session();
    s.step(MpvMessage::AidChange(Some(5))).ok().unwrap();
    s.step(MpvMessage::AidChange(None)).ok().unwrap();
    s.step(text("x")).ok().unwrap();
    s.step(reply(10, 0)).ok().unwrap();
    s.step(reply(11, 1)).ok().unwrap();
    match s.step(ass_reply(12, None)) {
        Ok(MpvAction::Completed(c)) => assert_eq!(c.aid, 5),
        _ => panic!("expected a completed subtitle"),
    }
}

#[test]
fn default_filter_drops_sign_lines_and_keeps_dialogue() {
    let mut s: MpvSession<i32> = MpvSession::new(StyleFilter::from_lists("", "Default", "", ""));
    s.step(text("EXIT")).ok().unwrap();
    s.step(reply(10, 0)).ok().unwrap();
    s.step(reply(11, 1)).ok().unwrap();
    assert!(matches!(s.step(ass_reply(12, Some(SIGN_LINE))), Ok(MpvAction::Filtered { subtitle_id: 1 })));
    s.step(text("Hello")).ok().unwrap();
    s.step(reply(20, 2)).ok().unwrap();
    s.step(reply(21, 3)).ok().unwrap();
    let both = format!("{}\n{}", SIGN_LINE, DEFAULT_LINE);
    match s.step(ass_reply(22, Some(&both))) {
        Ok(MpvAction::Completed(c)) => assert_eq!((c.id, c.text.as_str()), (2, "Hello")),
        _ => panic!("expected the dialogue line to be kept"),
    }
}

#[test]
fn blocked_name_is_filtered() {
    let mut s: MpvSession<i32> = MpvSession::new(StyleFilter::from_lists("", "", "Alice", ""));
    s.step(text("Hello")).ok().unwrap();
    s.step(ass_reply(12, Some(DEFAULT_LINE))).ok().unwrap();
    s.step(reply(10, 0)).ok().unwrap();
    assert!(matches!(s.step(reply(11, 1)), Ok(MpvAction::Filtered { subtitle_id: 1 })));
    // The dropped subtitle is settled: its block no longer answers.
    assert!(matches!(s.step(reply(11, 1)), Ok(MpvAction::Nothing)));
}

#[test]
fn subtitle_without_ass_events_is_kept() {
    let mut s: MpvSession<i32> = MpvSession::new(StyleFilter::from_lists("", "Default", "", ""));
    s.step(text("plain")).ok().unwrap();
    s.step(reply(10, 0)).ok().unwrap();
    s.step(reply(11, 1)).ok().unwrap();
    assert!(matches!(s.step(ass_reply(12, None)), Ok(MpvAction::Completed(_))));
    s.step(text("odd")).ok().unwrap();
    s.step(reply(20, 0)).ok().unwrap();
    s.step(reply(21, 1)).ok().unwrap();
    assert!(matches!(s.step(ass_reply(22, Some("not an event line"))), Ok(MpvAction::Completed(_))));
}

#[test]
fn session_over_decoded_mpv_lines() {
    let mut s: MpvSession<serde_json::Value> = MpvSession::new(keep_all());
    let lines = [
        "{\"event\":\"property-change\",\"id\":3,\"name\":\"path\",\"data\":\"/m/show.mkv\"}",
        "{\"event\":\"property-change\",\"id\":5,\"name\":\"sub-delay\",\"data\":0.5}",
        "{\"event\":\"property-change\",\"id\":1,\"name\":\"sub-text\",\"data\":\"こんにちは\"}",
        "{\"request_id\":10,\"error\":\"success\",\"data\":1.25}",
        "{\"request_id\":12,\"error\":\"success\",\"data\":\"Dialogue: 0,0:00:01.25,0:00:02.75,Default,,0,0,0,,こんにちは\"}",
    ];
    for l in lines {
        let r = s.step(decode_message(l));
        assert!(matches!(r, Ok(MpvAction::Nothing) | Ok(MpvAction::MediaChanged(_)) | Ok(MpvAction::QueryTiming { .. })));
    }
    assert_eq!(s.sub_delay().as_ref().and_then(|d| d.as_f64()), Some(0.5));
    match s.step(decode_message("{\"request_id\":11,\"error\":\"success\",\"data\":2.75}")) {
        Ok(MpvAction::Completed(c)) => {
            assert_eq!(c.text, "こんにちは");
            assert_eq!(c.start.as_f64(), Some(1.25));
            assert_eq!(c.end.as_f64(), Some(2.75));
            assert_eq!(c.media_path, "/m/show.mkv");
        }
        _ => panic!("expected a completed subtitle"),
    }
}

#[test]
fn pending_completes_only_with_both_indices() {
    let seqs: [&[usize]; 5] = [&[0, 1], &[1, 1, 0], &[2, 3, 0], &[0, 0, 2], &[]];
    let expected = [true, true, false, false, false];
    for (ops, want) in seqs.iter().zip(expected) {
        let mut p: PendingSubtitle<i32> = PendingSubtitle::new(9, "t".to_string());
        for (n, i) in ops.iter().enumerate() {
            p.set_response(*i, n as i32);
        }
        assert_eq!(p.is_complete(), want, "{:?}", ops);
        assert_eq!(p.id, 9);
        assert_eq!(p.text, "t");
    }
}

#[test]
fn each_subtitle_completes_once_and_stays_stored() {
    let mut s = session();
    let mut store: SubtitleStore<i32> = SubtitleStore::new();
    let mut done: Vec<u64> = Vec::new();
    let msgs = vec![
        text("a"), text("b"), reply(11, 2), ass_reply(12, None), reply(20, 3), ass_reply(22, None),
        reply(10, 1), reply(21, 4), reply(10, 9), reply(11, 9), text("c"), reply(31, 6),
        ass_reply(32, None), reply(30, 5), reply(31, 7),
    ];
    for m in msgs {
        if let Ok(MpvAction::Completed(c)) = s.step(m) {
            assert!(!done.contains(&c.id));
            done.push(c.id);
            store.insert(Subtitle { id: c.id, text: c.text, sub_start: c.start, sub_end: c.end, media_path: c.media_path, aid: c.aid });
        }
    }
    assert_eq!(done, vec![1, 2, 3]);
    for id in &done {
        assert_eq!(store.get(*id).map(|x| x.id), Some(*id));
    }
    assert_eq!(store.get(1).map(|x| (x.sub_start, x.sub_end)), Some((1, 2)));
    assert_eq!(store.get(3).map(|x| (x.sub_start, x.sub_end)), Some((5, 6)));
}

#[test]
fn inserted_inert_lines_change_no_run() {
    let base: Vec<MpvMessage<i32>> = vec![text("a"), reply(10, 1), reply(11, 2), ass_reply(12, None), text("b")];
    let run = |msgs: Vec<MpvMessage<i32>>| -> Vec<String> {
        let mut s = session();
        let mut out = Vec::new();
        for m in msgs {
            match s.step(m) {
                Ok(MpvAction::Nothing) => {}
                Ok(MpvAction::Completed(c)) => out.push(format!("done {} {}", c.id, c.text)),
                Ok(MpvAction::QueryTiming { command, .. }) => out.push(command),
                Ok(MpvAction::MediaChanged(p)) => out.push(p),
                Ok(MpvAction::Filtered { subtitle_id }) => out.push(format!("drop {}", subtitle_id)),
                Err(_) => out.push("err".to_string()),
            }
        }
        out
    };
    let plain = run(base);
    let noisy = run(vec![
        MpvMessage::Ignored, text("a"), MpvMessage::PathChange(None), reply(10, 1),
        MpvMessage::AidChange(None), reply(55, 0), reply(11, 2), MpvMessage::DelayChange(None),
        ass_reply(12, None), text(""), MpvMessage::TextChange(None), text("b"), reply(2, 0),
    ]);
    assert_eq!(plain, noisy);
}
