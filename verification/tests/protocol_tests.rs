use mpv_subtitleminer::protocol::{
    check_pid, check_pid_reply, classify, decode_message, read_pid_reply, get_property_command,
    observe_all_command, observe_property_command, pid_from_reply, pid_query, read_raw,
    reply_to, timing_query_command, MpvMessage, PidError, PidReply, RawMessage,
};

fn raw(request_id: Option<u64>, event: Option<&str>, id: Option<u64>) -> RawMessage<i32> {
    RawMessage {
        request_id,
        event: event.map(|e| e.to_string()),
        id,
        data: Some(7),
        data_str: Some("text".to_string()),
        data_i64: Some(-3),
        data_is_number: false,
    }
}

#[test]
fn get_property_command_text() {
    assert_eq!(
        get_property_command("pid", 1),
        "{\"command\":[\"get_property\",\"pid\"],\"request_id\":1}\n"
    );
}

#[test]
fn observe_property_command_text() {
    assert_eq!(
        observe_property_command(3, "path"),
        "{\"command\":[\"observe_property\",3,\"path\"]}\n"
    );
}

#[test]
fn observe_all_command_text() {
    let expected = "{\"command\":[\"observe_property\",1,\"sub-text\"]}\n\
          {\"command\":[\"observe_property\",3,\"path\"]}\n\
          {\"command\":[\"observe_property\",4,\"aid\"]}\n\
          {\"command\":[\"observe_property\",5,\"sub-delay\"]}\n";
    assert_eq!(observe_all_command(), expected);
}

#[test]
fn timing_query_command_text() {
    assert_eq!(
        timing_query_command(10),
        "{\"command\":[\"get_property\",\"sub-start\"],\"request_id\":10}\n\
         {\"command\":[\"get_property\",\"sub-end\"],\"request_id\":11}\n\
         {\"command\":[\"get_property\",\"sub-text/ass-full\"],\"request_id\":12}\n"
    );
}

#[test]
fn pid_query_commands() {
    let (cmd, id) = pid_query(false);
    assert_eq!(id, 1);
    assert_eq!(cmd, "{\"command\":[\"get_property\",\"pid\"],\"request_id\":1}\n");
    let (cmd, id) = pid_query(true);
    assert_eq!(id, 2);
    assert_eq!(cmd, "{\"command\":[\"get_property\",\"process-id\"],\"request_id\":2}\n");
}

#[test]
fn classify_reply_takes_precedence() {
    match classify(raw(Some(12), Some("property-change"), Some(3))) {
        MpvMessage::Reply { request_id, data, .. } => {
            assert_eq!(request_id, 12);
            assert_eq!(data, Some(7));
        }
        _ => panic!("expected a reply"),
    }
}

#[test]
fn classify_non_property_change_is_ignored() {
    assert!(matches!(classify(raw(None, Some("start-file"), Some(3))), MpvMessage::Ignored));
    assert!(matches!(classify(raw(None, None, Some(3))), MpvMessage::Ignored));
}

#[test]
fn classify_observer_ids() {
    match classify(raw(None, Some("property-change"), Some(3))) {
        MpvMessage::PathChange(p) => assert_eq!(p.as_deref(), Some("text")),
        _ => panic!("expected a path change"),
    }
    match classify(raw(None, Some("property-change"), Some(4))) {
        MpvMessage::AidChange(a) => assert_eq!(a, Some(-3)),
        _ => panic!("expected an aid change"),
    }
    match classify(raw(None, Some("property-change"), Some(5))) {
        MpvMessage::DelayChange(d) => assert_eq!(d, None),
        _ => panic!("expected a delay change"),
    }
    let mut r = raw(None, Some("property-change"), Some(5));
    r.data_is_number = true;
    match classify(r) {
        MpvMessage::DelayChange(d) => assert_eq!(d, Some(7)),
        _ => panic!("expected a delay change"),
    }
    match classify(raw(None, Some("property-change"), Some(1))) {
        MpvMessage::TextChange(t) => assert_eq!(t.as_deref(), Some("text")),
        _ => panic!("expected a text change"),
    }
    match classify(raw(None, Some("property-change"), None)) {
        MpvMessage::TextChange(t) => assert_eq!(t.as_deref(), Some("text")),
        _ => panic!("expected a text change"),
    }
}

#[test]
fn decode_message_of_invalid_json_is_ignored() {
    assert!(matches!(decode_message("not json\n"), MpvMessage::Ignored));
    assert!(read_raw("{").is_none());
}

#[test]
fn decode_message_reads_mpv_lines() {
    match decode_message("{\"request_id\":21,\"error\":\"success\",\"data\":3.5}\n") {
        MpvMessage::Reply { request_id, data, .. } => {
            assert_eq!(request_id, 21);
            assert_eq!(data.and_then(|d| d.as_f64()), Some(3.5));
        }
        _ => panic!("expected a reply"),
    }
    match decode_message("{\"event\":\"property-change\",\"id\":3,\"name\":\"path\",\"data\":\"/m/a.mkv\"}") {
        MpvMessage::PathChange(p) => assert_eq!(p.as_deref(), Some("/m/a.mkv")),
        _ => panic!("expected a path change"),
    }
    match decode_message("{\"event\":\"property-change\",\"id\":4,\"name\":\"aid\",\"data\":2}") {
        MpvMessage::AidChange(a) => assert_eq!(a, Some(2)),
        _ => panic!("expected an aid change"),
    }
    match decode_message("{\"event\":\"property-change\",\"id\":4,\"name\":\"aid\",\"data\":false}") {
        MpvMessage::AidChange(a) => assert_eq!(a, None),
        _ => panic!("expected an aid change"),
    }
    match decode_message("{\"event\":\"property-change\",\"id\":5,\"name\":\"sub-delay\",\"data\":-0.25}") {
        MpvMessage::DelayChange(d) => assert_eq!(d.and_then(|d| d.as_f64()), Some(-0.25)),
        _ => panic!("expected a delay change"),
    }
    match decode_message("{\"event\":\"property-change\",\"id\":1,\"name\":\"sub-text\",\"data\":\"Hello\"}") {
        MpvMessage::TextChange(t) => assert_eq!(t.as_deref(), Some("Hello")),
        _ => panic!("expected a text change"),
    }
    assert!(matches!(decode_message("{\"event\":\"seek\"}"), MpvMessage::Ignored));
    // A request id that is not a non-negative integer does not make a reply.
    assert!(matches!(decode_message("{\"request_id\":-1,\"event\":\"pause\"}"), MpvMessage::Ignored));
}

#[test]
fn reply_to_matches_request_id() {
    assert!(reply_to("{\"request_id\":1,\"error\":\"success\",\"data\":42}", 1).is_some());
    assert!(reply_to("{\"request_id\":2,\"error\":\"success\",\"data\":42}", 1).is_none());
    assert!(reply_to("{\"event\":\"idle\"}", 1).is_none());
    assert!(reply_to("garbage", 1).is_none());
}

fn pid_reply(status: Option<&str>, u: Option<u64>, i: Option<i64>) -> PidReply {
    PidReply { status: status.map(|s| s.to_string()), data_u64: u, data_i64: i }
}

#[test]
fn check_pid_reply_accepts_success() {
    assert!(matches!(check_pid_reply(&pid_reply(Some("success"), Some(4242), Some(4242))), Ok(4242)));
    assert!(matches!(check_pid_reply(&pid_reply(Some("success"), None, Some(17))), Ok(17)));
}

#[test]
fn check_pid_reply_errors() {
    match check_pid_reply(&pid_reply(Some("property unavailable"), Some(1), None)) {
        Err(PidError::Status(s)) => assert_eq!(s, "property unavailable"),
        _ => panic!("expected a status error"),
    }
    match check_pid_reply(&pid_reply(None, Some(1), None)) {
        Err(PidError::Status(s)) => assert_eq!(s, ""),
        _ => panic!("expected a status error"),
    }
    assert!(matches!(check_pid_reply(&pid_reply(Some("success"), None, Some(-5))), Err(PidError::NotInteger)));
    assert!(matches!(check_pid_reply(&pid_reply(Some("success"), None, None)), Err(PidError::NotInteger)));
    assert!(matches!(
        check_pid_reply(&pid_reply(Some("success"), Some(u32::MAX as u64 + 1), None)),
        Err(PidError::OutOfRange)
    ));
    assert!(matches!(check_pid_reply(&pid_reply(Some("success"), Some(u32::MAX as u64), None)), Ok(u32::MAX)));
}

#[test]
fn pid_error_messages() {
    assert_eq!(PidError::Status("x".to_string()).message(), "mpv returned error querying PID: x");
    assert_eq!(PidError::NotInteger.message(), "mpv returned non-integer PID");
    assert_eq!(PidError::OutOfRange.message(), "mpv PID out of range");
    assert!(!PidError::Status(String::new()).is_invalid_data());
    assert!(PidError::NotInteger.is_invalid_data());
    assert!(PidError::OutOfRange.is_invalid_data());
}

#[test]
fn pid_from_reply_reads_json() {
    let v: serde_json::Value = serde_json::from_str("{\"request_id\":1,\"error\":\"success\",\"data\":31337}").unwrap();
    assert!(matches!(pid_from_reply(&v), Ok(31337)));
    let v: serde_json::Value = serde_json::from_str("{\"request_id\":1,\"error\":\"success\",\"data\":1.5}").unwrap();
    assert!(matches!(pid_from_reply(&v), Err(PidError::NotInteger)));
    let v: serde_json::Value = serde_json::from_str("{\"request_id\":1,\"error\":\"property not found\"}").unwrap();
    assert!(matches!(pid_from_reply(&v), Err(PidError::Status(_))));
    let v: serde_json::Value = serde_json::from_str("{\"request_id\":1,\"error\":\"success\",\"data\":99999999999}").unwrap();
    assert!(matches!(pid_from_reply(&v), Err(PidError::OutOfRange)));
}

#[test]
fn check_pid_mismatch_message() {
    assert!(check_pid(7, 7, "/tmp/mpv-socket").is_ok());
    assert_eq!(
        check_pid(7, 8, "/tmp/mpv-socket").unwrap_err(),
        "MPV_IPC_PID_MISMATCH expected=7 actual=8 socket=/tmp/mpv-socket"
    );
}

#[test]
fn read_pid_reply_reads_fields() {
    let v: serde_json::Value = serde_json::from_str("{\"request_id\":2,\"error\":\"success\",\"data\":-4}").unwrap();
    let r = read_pid_reply(&v);
    assert_eq!(r.status.as_deref(), Some("success"));
    assert_eq!(r.data_u64, None);
    assert_eq!(r.data_i64, Some(-4));
    let v: serde_json::Value = serde_json::from_str("{\"error\":7}").unwrap();
    let r = read_pid_reply(&v);
    assert_eq!(r.status, None);
    assert_eq!((r.data_u64, r.data_i64), (None, None));
}

#[test]
fn read_raw_reads_each_field() {
    let raw = read_raw("{\"request_id\":30,\"event\":\"x\",\"id\":4,\"data\":\"s\"}").unwrap();
    assert_eq!(raw.request_id, Some(30));
    assert_eq!(raw.event.as_deref(), Some("x"));
    assert_eq!(raw.id, Some(4));
    assert_eq!(raw.data_str.as_deref(), Some("s"));
    assert_eq!(raw.data_i64, None);
    assert!(!raw.data_is_number);
    assert!(raw.data.is_some());
    let raw = read_raw("{\"data\":12}").unwrap();
    assert_eq!((raw.request_id, raw.id, raw.data_i64, raw.data_is_number), (None, None, Some(12), true));
    assert!(raw.data_str.is_none());
    let raw = read_raw("[1,2]").unwrap();
    assert!(raw.data.is_none() && raw.event.is_none());
}

#[test]
fn decoded_reply_carries_string_data() {
    match decode_message("{\"request_id\":12,\"error\":\"success\",\"data\":\"Dialogue: x\"}") {
        MpvMessage::Reply { request_id, data_str, .. } => {
            assert_eq!(request_id, 12);
            assert_eq!(data_str.as_deref(), Some("Dialogue: x"));
        }
        _ => panic!("expected a reply"),
    }
    match decode_message("{\"request_id\":12,\"error\":\"property unavailable\"}") {
        MpvMessage::Reply { data, data_str, .. } => {
            assert!(data.is_none());
            assert!(data_str.is_none());
        }
        _ => panic!("expected a reply"),
    }
}
