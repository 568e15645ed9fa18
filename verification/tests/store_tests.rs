use mpv_subtitleminer::store::{plan_request, MediaPlan, ProtocolRequest, SubtitleStore};
use mpv_subtitleminer::Subtitle;

fn sub(id: u64, start: f64, end: f64, path: &str, aid: i64) -> Subtitle<f64> {
    Subtitle { id, text: format!("line {}", id), sub_start: start, sub_end: end, media_path: path.to_string(), aid }
}

fn store() -> SubtitleStore<f64> {
    let mut st = SubtitleStore::new();
    st.insert(sub(1, 1.0, 2.0, "/a.mkv", 1));
    st.insert(sub(2, 3.0, 4.5, "/a.mkv", 1));
    st.insert(sub(3, 10.0, 12.0, "/b.mkv", 2));
    st
}

#[test]
fn store_returns_what_was_inserted() {
    let mut st = store();
    assert_eq!(st.get(2).map(|s| s.sub_end), Some(4.5));
    assert!(st.get(4).is_none());
    st.insert(sub(2, 5.0, 6.0, "/c.mkv", 3));
    let s2 = st.get(2).unwrap();
    assert_eq!((s2.sub_start, s2.sub_end, s2.media_path.as_str(), s2.aid), (5.0, 6.0, "/c.mkv", 3));
    assert_eq!(st.get(1).map(|s| s.sub_start), Some(1.0));
}

#[test]
fn audio_range_spans_start_of_first_to_end_of_last() {
    let st = store();
    let req: ProtocolRequest<(), &str> = ProtocolRequest::AudioRange { start_id: 1, end_id: 3, audio: "opts" };
    match plan_request(req, &st) {
        Some(MediaPlan::AudioRange { start_id, end_id, start, end, media_path, aid, audio }) => {
            assert_eq!((start_id, end_id, start, end), (1, 3, 1.0, 12.0));
            assert_eq!(media_path, "/a.mkv");
            assert_eq!(aid, 1);
            assert_eq!(audio, "opts");
        }
        _ => panic!("expected an audio range plan"),
    }
}

#[test]
fn audio_range_needs_both_ends() {
    let st = store();
    let req: ProtocolRequest<(), ()> = ProtocolRequest::AudioRange { start_id: 1, end_id: 9, audio: () };
    assert!(plan_request(req, &st).is_none());
    let req: ProtocolRequest<(), ()> = ProtocolRequest::AudioRange { start_id: 9, end_id: 1, audio: () };
    assert!(plan_request(req, &st).is_none());
}

#[test]
fn thumbnail_spans_to_end_subtitle_when_stored() {
    let st = store();
    let req: ProtocolRequest<u8, ()> = ProtocolRequest::Thumbnail { id: 1, end_id: Some(2), image: 9 };
    match plan_request(req, &st) {
        Some(MediaPlan::Thumbnail { id, subtitle, image }) => {
            assert_eq!((id, image), (1, 9));
            assert_eq!((subtitle.id, subtitle.sub_start, subtitle.sub_end), (1, 1.0, 4.5));
            assert_eq!(subtitle.text, "line 1");
        }
        _ => panic!("expected a thumbnail plan"),
    }
    let req: ProtocolRequest<u8, ()> = ProtocolRequest::Thumbnail { id: 1, end_id: Some(42), image: 0 };
    match plan_request(req, &st) {
        Some(MediaPlan::Thumbnail { subtitle, .. }) => assert_eq!(subtitle.sub_end, 2.0),
        _ => panic!("expected a thumbnail plan"),
    }
    let req: ProtocolRequest<u8, ()> = ProtocolRequest::Thumbnail { id: 3, end_id: None, image: 0 };
    match plan_request(req, &st) {
        Some(MediaPlan::Thumbnail { subtitle, .. }) => assert_eq!((subtitle.sub_start, subtitle.sub_end), (10.0, 12.0)),
        _ => panic!("expected a thumbnail plan"),
    }
}

#[test]
fn missing_subtitle_gives_no_plan() {
    let st = store();
    let req: ProtocolRequest<(), ()> = ProtocolRequest::Thumbnail { id: 7, end_id: Some(1), image: () };
    assert!(plan_request(req, &st).is_none());
    let req: ProtocolRequest<(), ()> = ProtocolRequest::Audio { id: 7, audio: () };
    assert!(plan_request(req, &st).is_none());
}

#[test]
fn audio_plan_copies_the_subtitle() {
    let st = store();
    let req: ProtocolRequest<(), i32> = ProtocolRequest::Audio { id: 3, audio: -1 };
    match plan_request(req, &st) {
        Some(MediaPlan::Audio { id, subtitle, audio }) => {
            assert_eq!((id, audio), (3, -1));
            assert_eq!((subtitle.sub_start, subtitle.sub_end, subtitle.aid), (10.0, 12.0, 2));
            assert_eq!(subtitle.media_path, "/b.mkv");
        }
        _ => panic!("expected an audio plan"),
    }
}

#[test]
fn plan_kinds() {
    let st = store();
    let p = plan_request(ProtocolRequest::<(), ()>::Thumbnail { id: 1, end_id: None, image: () }, &st).unwrap();
    assert_eq!(p.kind(), "thumbnail");
    let p = plan_request(ProtocolRequest::<(), ()>::Audio { id: 1, audio: () }, &st).unwrap();
    assert_eq!(p.kind(), "audio");
    let p = plan_request(ProtocolRequest::<(), ()>::AudioRange { start_id: 1, end_id: 1, audio: () }, &st).unwrap();
    assert_eq!(p.kind(), "audio_range");
}
