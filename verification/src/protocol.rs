//! mpv's JSON IPC: the commands the bridge sends, and how it reads the
//! lines mpv sends back.

use vstd::prelude::*;
use crate::json::{
    json_parse, json_members, json_readings, parse_json, json_get, json_as_u64, json_as_i64, json_as_str,
    json_is_number, json_clone,
};
use crate::text::{decimal_spec, push_decimal, digits_value, law_decimal_reads_back, law_decimal_injective};

verus! {

/// Observer id of the `sub-text` property.
pub const OBSERVE_SUB_TEXT: u64 = 1;

/// Observer id of the `path` property.
pub const OBSERVE_PATH: u64 = 3;

/// Observer id of the `aid` property.
pub const OBSERVE_AID: u64 = 4;

/// Observer id of the `sub-delay` property.
pub const OBSERVE_SUB_DELAY: u64 = 5;

/// `{"command":["get_property","<property>"],"request_id":<id>}` and a newline.
pub open spec fn get_property_spec(property: Seq<char>, request_id: nat) -> Seq<char> {
    "{\"command\":[\"get_property\",\""@ + property + "\"],\"request_id\":"@ + decimal_spec(
        request_id,
    ) + "}\n"@
}

/// `{"command":["observe_property",<id>,"<property>"]}` and a newline.
pub open spec fn observe_property_spec(observer: nat, property: Seq<char>) -> Seq<char> {
    "{\"command\":[\"observe_property\","@ + decimal_spec(observer) + ",\""@ + property
        + "\"]}\n"@
}

/// The commands that subscribe to the four properties the session follows.
pub open spec fn observe_all_spec() -> Seq<char> {
    observe_property_spec(OBSERVE_SUB_TEXT as nat, "sub-text"@) + observe_property_spec(
        OBSERVE_PATH as nat,
        "path"@,
    ) + observe_property_spec(OBSERVE_AID as nat, "aid"@) + observe_property_spec(
        OBSERVE_SUB_DELAY as nat,
        "sub-delay"@,
    )
}

/// The queries about a new subtitle: its timing, `sub-start` under `base`
/// and `sub-end` under `base + 1`, and its ASS events, `sub-text/ass-full`
/// under `base + 2`.
pub open spec fn timing_query_spec(base: nat) -> Seq<char> {
    get_property_spec("sub-start"@, base) + get_property_spec("sub-end"@, base + 1)
        + get_property_spec("sub-text/ass-full"@, base + 2)
}

/// The command that asks mpv for `property` under `request_id`.
pub fn get_property_command(property: &str, request_id: u64) -> (cmd: String)
    ensures
        cmd@ == get_property_spec(property@, request_id as nat),
{
    let mut cmd = String::from_str("{\"command\":[\"get_property\",\"");
    cmd.append(property);
    cmd.append("\"],\"request_id\":");
    push_decimal(&mut cmd, request_id);
    cmd.append("}\n");
    cmd
}

/// The command that asks mpv to report changes of `property` under
/// `observer`.
pub fn observe_property_command(observer: u64, property: &str) -> (cmd: String)
    ensures
        cmd@ == observe_property_spec(observer as nat, property@),
{
    let mut cmd = String::from_str("{\"command\":[\"observe_property\",");
    push_decimal(&mut cmd, observer);
    cmd.append(",\"");
    cmd.append(property);
    cmd.append("\"]}\n");
    cmd
}

/// The subscription commands sent once mpv is connected.
pub fn observe_all_command() -> (cmd: String)
    ensures
        cmd@ == observe_all_spec(),
{
    let mut cmd = observe_property_command(OBSERVE_SUB_TEXT, "sub-text");
    let c = observe_property_command(OBSERVE_PATH, "path");
    cmd.append(c.as_str());
    let c = observe_property_command(OBSERVE_AID, "aid");
    cmd.append(c.as_str());
    let c = observe_property_command(OBSERVE_SUB_DELAY, "sub-delay");
    cmd.append(c.as_str());
    cmd
}

/// The queries about the subtitle whose requests start at `base`.
pub fn timing_query_command(base: u64) -> (cmd: String)
    requires
        base < u64::MAX - 1,
    ensures
        cmd@ == timing_query_spec(base as nat),
{
    let mut cmd = get_property_command("sub-start", base);
    let c = get_property_command("sub-end", base + 1);
    cmd.append(c.as_str());
    let c = get_property_command("sub-text/ass-full", base + 2);
    cmd.append(c.as_str());
    cmd
}

/// The fields of one line from mpv that the bridge reads, each as
/// `serde_json` reports it.
pub struct RawMessage<V> {
    /// `request_id`, where it is a non-negative integer.
    pub request_id: Option<u64>,
    /// `event`, where it is a string.
    pub event: Option<String>,
    /// `id`, where it is a non-negative integer.
    pub id: Option<u64>,
    /// `data`, where the member is present.
    pub data: Option<V>,
    /// `data`, where it is a string.
    pub data_str: Option<String>,
    /// `data`, where it is an integer that fits an `i64`.
    pub data_i64: Option<i64>,
    /// Whether `data` is a number.
    pub data_is_number: bool,
}

/// A line from mpv, as the session reads it.
pub enum MpvMessage<V> {
    /// The reply to a request: its id, its `data` where present, and its
    /// `data` where it is a string.
    Reply { request_id: u64, data: Option<V>, data_str: Option<String> },
    /// The media path changed: the new path, where it is a string.
    PathChange(Option<String>),
    /// The audio track changed: the new track id, where it is an integer.
    AidChange(Option<i64>),
    /// The subtitle delay changed: the new delay, where it is a number.
    DelayChange(Option<V>),
    /// The subtitle text changed: the new text, where it is a string.
    TextChange(Option<String>),
    /// Anything else.
    Ignored,
}

/// The view of a [`MpvMessage`], with strings as character sequences.
pub enum MessageView<V> {
    Reply { request_id: u64, data: Option<V>, data_str: Option<Seq<char>> },
    PathChange(Option<Seq<char>>),
    AidChange(Option<i64>),
    DelayChange(Option<V>),
    TextChange(Option<Seq<char>>),
    Ignored,
}

/// The view of an optional string.
pub open spec fn opt_str(o: Option<String>) -> Option<Seq<char>> {
    match o {
        Some(s) => Some(s@),
        None => None,
    }
}

impl<V> View for MpvMessage<V> {
    type V = MessageView<V>;

    open spec fn view(&self) -> MessageView<V> {
        match self {
            MpvMessage::Reply { request_id, data, data_str } => MessageView::Reply {
                request_id: *request_id,
                data: *data,
                data_str: opt_str(*data_str),
            },
            MpvMessage::PathChange(p) => MessageView::PathChange(opt_str(*p)),
            MpvMessage::AidChange(a) => MessageView::AidChange(*a),
            MpvMessage::DelayChange(d) => MessageView::DelayChange(*d),
            MpvMessage::TextChange(t) => MessageView::TextChange(opt_str(*t)),
            MpvMessage::Ignored => MessageView::Ignored,
        }
    }
}

/// How a line with the given fields is read: a reply where it carries a
/// request id; otherwise, for a `property-change` event, a change of the
/// property that its observer id names; otherwise nothing.
pub open spec fn classify_spec<V>(raw: RawMessage<V>) -> MessageView<V> {
    match raw.request_id {
        Some(r) => MessageView::Reply {
            request_id: r,
            data: raw.data,
            data_str: opt_str(raw.data_str),
        },
        None => {
            if opt_str(raw.event) != Some("property-change"@) {
                MessageView::Ignored
            } else if raw.id == Some(OBSERVE_PATH) {
                MessageView::PathChange(opt_str(raw.data_str))
            } else if raw.id == Some(OBSERVE_AID) {
                MessageView::AidChange(raw.data_i64)
            } else if raw.id == Some(OBSERVE_SUB_DELAY) {
                MessageView::DelayChange(
                    if raw.data_is_number {
                        raw.data
                    } else {
                        None
                    },
                )
            } else {
                MessageView::TextChange(opt_str(raw.data_str))
            }
        },
    }
}

/// Whether `s` is `property-change`.
fn is_property_change(s: &String) -> (r: bool)
    ensures
        r == (s@ == "property-change"@),
{
    let expected = String::from_str("property-change");
    *s == expected
}

/// Reads a line with the given fields.
pub fn classify<V>(raw: RawMessage<V>) -> (m: MpvMessage<V>)
    ensures
        m@ == classify_spec(raw),
{
    let RawMessage { request_id, event, id, data, data_str, data_i64, data_is_number } = raw;
    if let Some(r) = request_id {
        return MpvMessage::Reply { request_id: r, data, data_str };
    }
    let is_change = match &event {
        Some(e) => is_property_change(e),
        None => false,
    };
    if !is_change {
        return MpvMessage::Ignored;
    }
    match id {
        Some(i) if i == OBSERVE_PATH => MpvMessage::PathChange(data_str),
        Some(i) if i == OBSERVE_AID => MpvMessage::AidChange(data_i64),
        Some(i) if i == OBSERVE_SUB_DELAY => {
            if data_is_number {
                MpvMessage::DelayChange(data)
            } else {
                MpvMessage::DelayChange(None)
            }
        },
        _ => MpvMessage::TextChange(data_str),
    }
}

/// How a JSON value reads: as a `u64`, as an `i64`, as a string, and
/// whether it is a number.
pub type JsonReadings = (Option<u64>, Option<i64>, Option<Seq<char>>, bool);

/// The `u64` reading of the member `key`, where there is one.
pub open spec fn member_u64(m: Map<Seq<char>, JsonReadings>, key: Seq<char>) -> Option<u64> {
    if m.contains_key(key) {
        m[key].0
    } else {
        None
    }
}

/// The `i64` reading of the member `key`, where there is one.
pub open spec fn member_i64(m: Map<Seq<char>, JsonReadings>, key: Seq<char>) -> Option<i64> {
    if m.contains_key(key) {
        m[key].1
    } else {
        None
    }
}

/// The string reading of the member `key`, where there is one.
pub open spec fn member_str(m: Map<Seq<char>, JsonReadings>, key: Seq<char>) -> Option<
    Seq<char>,
> {
    if m.contains_key(key) {
        m[key].2
    } else {
        None
    }
}

/// Whether the member `key` is present and a number.
pub open spec fn member_is_number(m: Map<Seq<char>, JsonReadings>, key: Seq<char>) -> bool {
    m.contains_key(key) && m[key].3
}

/// The member `key` of `v` as a `u64`.
fn get_u64(v: &serde_json::Value, key: &str) -> (r: Option<u64>)
    ensures
        r == member_u64(json_members(*v), key@),
{
    match json_get(v, key) {
        Some(m) => json_as_u64(m),
        None => None,
    }
}

/// The member `key` of `v` as a string.
fn get_string(v: &serde_json::Value, key: &str) -> (r: Option<String>)
    ensures
        opt_str(r) == member_str(json_members(*v), key@),
{
    match json_get(v, key) {
        Some(m) => match json_as_str(m) {
            Some(s) => Some(String::from_str(s)),
            None => None,
        },
        None => None,
    }
}

/// Whether `raw` holds what the members `m` of a line read as.
pub open spec fn raw_matches(raw: RawMessage<serde_json::Value>, m: Map<Seq<char>, JsonReadings>) -> bool {
    &&& raw.request_id == member_u64(m, "request_id"@)
    &&& opt_str(raw.event) == member_str(m, "event"@)
    &&& raw.id == member_u64(m, "id"@)
    &&& (raw.data is Some <==> m.contains_key("data"@))
    &&& (raw.data matches Some(d) ==> json_readings(d) == m["data"@])
    &&& opt_str(raw.data_str) == member_str(m, "data"@)
    &&& raw.data_i64 == member_i64(m, "data"@)
    &&& raw.data_is_number == member_is_number(m, "data"@)
}

/// Parses a line from mpv and reads the fields the session uses; `None`
/// where the line is not JSON.
pub fn read_raw(line: &str) -> (r: Option<RawMessage<serde_json::Value>>)
    ensures
        r.is_some() == json_parse(line@) is Some,
        r matches Some(raw) ==> raw_matches(raw, json_parse(line@)->0),
{
    let json = match parse_json(line) {
        Ok(j) => j,
        Err(_) => return None,
    };
    let request_id = get_u64(&json, "request_id");
    let event = get_string(&json, "event");
    let id = get_u64(&json, "id");
    let data_str = get_string(&json, "data");
    let (data, data_i64, data_is_number) = match json_get(&json, "data") {
        Some(d) => (Some(json_clone(d)), json_as_i64(d), json_is_number(d)),
        None => (None, None, false),
    };
    Some(RawMessage { request_id, event, id, data, data_str, data_i64, data_is_number })
}

/// Reads a line from mpv: [`classify`] applied to its fields, and
/// [`MpvMessage::Ignored`] where it is not JSON.
pub fn decode_message(line: &str) -> (m: MpvMessage<serde_json::Value>)
    ensures
        json_parse(line@) is None ==> m@ == MessageView::<serde_json::Value>::Ignored,
        json_parse(line@) is Some ==> exists|raw: RawMessage<serde_json::Value>|
            raw_matches(raw, json_parse(line@)->0) && m@ == classify_spec(raw),
{
    match read_raw(line) {
        Some(raw) => {
            let ghost r0 = raw;
            let m = classify(raw);
            assert(raw_matches(r0, json_parse(line@)->0) && m@ == classify_spec(r0));
            m
        },
        None => MpvMessage::Ignored,
    }
}

/// The reply in `line` to the request `request_id`: the whole document where
/// the line is JSON and its `request_id` is that id, else `None`.
pub fn reply_to(line: &str, request_id: u64) -> (r: Option<serde_json::Value>)
    ensures
        r is Some <==> (json_parse(line@) is Some && member_u64(json_parse(line@)->0, "request_id"@)
            == Some(request_id)),
        r matches Some(v) ==> json_members(v) == json_parse(line@)->0,
{
    let json = match parse_json(line) {
        Ok(j) => j,
        Err(_) => return None,
    };
    if get_u64(&json, "request_id") == Some(request_id) {
        Some(json)
    } else {
        None
    }
}

/// Request id of the first query for mpv's process id.
pub const PID_REQUEST_ID: u64 = 1;

/// Request id of the fallback query for mpv's process id.
pub const PID_FALLBACK_REQUEST_ID: u64 = 2;

/// The query for mpv's process id: the `pid` property under request id 1,
/// or, as the fallback, `process-id` under request id 2. Returns the command
/// and its request id.
pub fn pid_query(fallback: bool) -> (q: (String, u64))
    ensures
        !fallback ==> q.1 == PID_REQUEST_ID && q.0@ == get_property_spec(
            "pid"@,
            PID_REQUEST_ID as nat,
        ),
        fallback ==> q.1 == PID_FALLBACK_REQUEST_ID && q.0@ == get_property_spec(
            "process-id"@,
            PID_FALLBACK_REQUEST_ID as nat,
        ),
{
    if fallback {
        (get_property_command("process-id", PID_FALLBACK_REQUEST_ID), PID_FALLBACK_REQUEST_ID)
    } else {
        (get_property_command("pid", PID_REQUEST_ID), PID_REQUEST_ID)
    }
}

/// The fields of mpv's reply to a process-id query that the check reads.
pub struct PidReply {
    /// `error`, where it is a string.
    pub status: Option<String>,
    /// `data`, where it is a non-negative integer.
    pub data_u64: Option<u64>,
    /// `data`, where it is an integer that fits an `i64`.
    pub data_i64: Option<i64>,
}

/// Why a process-id reply was refused.
pub enum PidError {
    /// mpv reported this status instead of `success`.
    Status(String),
    /// The reply carries no non-negative integer.
    NotInteger,
    /// The process id does not fit a `u32`.
    OutOfRange,
}

/// The status of a reply; a missing one reads as the empty string.
pub open spec fn pid_status_spec(r: PidReply) -> Seq<char> {
    match r.status {
        Some(s) => s@,
        None => Seq::empty(),
    }
}

/// The process id a reply carries: its `data` as a `u64`, or else as an
/// `i64` that is not negative.
pub open spec fn pid_value_spec(r: PidReply) -> Option<u64> {
    match r.data_u64 {
        Some(u) => Some(u),
        None => match r.data_i64 {
            Some(i) => if i >= 0 {
                Some(i as u64)
            } else {
                None
            },
            None => None,
        },
    }
}

/// The outcome of checking a process-id reply.
pub open spec fn check_pid_reply_spec(r: PidReply, res: Result<u32, PidError>) -> bool {
    match res {
        Err(PidError::Status(s)) => pid_status_spec(r) != "success"@ && s@ == pid_status_spec(r),
        Err(PidError::NotInteger) => pid_status_spec(r) == "success"@ && pid_value_spec(r)
            is None,
        Err(PidError::OutOfRange) => pid_status_spec(r) == "success"@ && pid_value_spec(r)
            is Some && pid_value_spec(r)->0 > u32::MAX,
        Ok(p) => pid_status_spec(r) == "success"@ && pid_value_spec(r) == Some(p as u64),
    }
}

/// Checks mpv's reply to a process-id query: the status must be `success`
/// and the data a process id that fits a `u32`.
pub fn check_pid_reply(r: &PidReply) -> (res: Result<u32, PidError>)
    ensures
        check_pid_reply_spec(*r, res),
{
    let status = match &r.status {
        Some(s) => s.clone(),
        None => String::new(),
    };
    let success = String::from_str("success");
    if !(status == success) {
        return Err(PidError::Status(status));
    }
    let pid: u64 = match r.data_u64 {
        Some(u) => u,
        None => match r.data_i64 {
            Some(i) => {
                if i >= 0 {
                    i as u64
                } else {
                    return Err(PidError::NotInteger);
                }
            },
            None => return Err(PidError::NotInteger),
        },
    };
    if pid <= u32::MAX as u64 {
        Ok(pid as u32)
    } else {
        Err(PidError::OutOfRange)
    }
}

impl PidError {
    /// Whether the reply's data was at fault, rather than mpv's status.
    pub fn is_invalid_data(&self) -> (r: bool)
        ensures
            r == !(self is Status),
    {
        match self {
            PidError::Status(_) => false,
            _ => true,
        }
    }

    /// The message that describes the error.
    pub fn message(&self) -> (m: String)
        ensures
            m@ == match self {
                PidError::Status(s) => "mpv returned error querying PID: "@ + s@,
                PidError::NotInteger => "mpv returned non-integer PID"@,
                PidError::OutOfRange => "mpv PID out of range"@,
            },
    {
        match self {
            PidError::Status(s) => {
                let mut m = String::from_str("mpv returned error querying PID: ");
                m.append(s.as_str());
                m
            },
            PidError::NotInteger => String::from_str("mpv returned non-integer PID"),
            PidError::OutOfRange => String::from_str("mpv PID out of range"),
        }
    }
}

/// Whether `r` holds what the members `m` of a process-id reply read as:
/// `error` as a string, `data` as a `u64` and as an `i64`.
pub open spec fn pid_reply_matches(r: PidReply, m: Map<Seq<char>, JsonReadings>) -> bool {
    &&& opt_str(r.status) == member_str(m, "error"@)
    &&& r.data_u64 == member_u64(m, "data"@)
    &&& r.data_i64 == member_i64(m, "data"@)
}

/// Reads the fields of a process-id reply.
pub fn read_pid_reply(v: &serde_json::Value) -> (r: PidReply)
    ensures
        pid_reply_matches(r, json_members(*v)),
{
    let status = get_string(v, "error");
    let (data_u64, data_i64) = match json_get(v, "data") {
        Some(d) => (json_as_u64(d), json_as_i64(d)),
        None => (None, None),
    };
    PidReply { status, data_u64, data_i64 }
}

/// The process id in mpv's reply to a process-id query, as
/// [`check_pid_reply`] decides it on the reply's fields.
pub fn pid_from_reply(v: &serde_json::Value) -> (res: Result<u32, PidError>)
    ensures
        exists|r: PidReply| pid_reply_matches(r, json_members(*v)) && check_pid_reply_spec(r, res),
{
    let r = read_pid_reply(v);
    let res = check_pid_reply(&r);
    assert(pid_reply_matches(r, json_members(*v)) && check_pid_reply_spec(r, res));
    res
}

/// `MPV_IPC_PID_MISMATCH expected=<e> actual=<a> socket=<path>`.
pub open spec fn pid_mismatch_spec(expected: u32, actual: u32, socket_path: Seq<char>) -> Seq<
    char,
> {
    "MPV_IPC_PID_MISMATCH expected="@ + decimal_spec(expected as nat) + " actual="@
        + decimal_spec(actual as nat) + " socket="@ + socket_path
}

/// Checks that the mpv behind the socket has the expected process id; the
/// error carries the message that reports the mismatch.
pub fn check_pid(expected: u32, actual: u32, socket_path: &str) -> (r: Result<(), String>)
    ensures
        r is Ok <==> expected == actual,
        r matches Err(m) ==> m@ == pid_mismatch_spec(expected, actual, socket_path@),
{
    if expected == actual {
        return Ok(());
    }
    let mut m = String::from_str("MPV_IPC_PID_MISMATCH expected=");
    push_decimal(&mut m, expected as u64);
    m.append(" actual=");
    push_decimal(&mut m, actual as u64);
    m.append(" socket=");
    m.append(socket_path);
    Err(m)
}

/// Queries under different request ids are different texts, so mpv's
/// reply, which carries the id, tells which query it answers; and a query
/// names its request id in full decimal.
pub proof fn law_get_property_ids_distinct(property: Seq<char>, a: u64, b: u64)
    ensures
        a != b ==> get_property_spec(property, a as nat) != get_property_spec(property, b as nat),
        ({
            let head = "{\"command\":[\"get_property\",\""@ + property + "\"],\"request_id\":"@;
            let q = get_property_spec(property, a as nat);
            &&& q.subrange(head.len() as int, q.len() - 2) == decimal_spec(a as nat)
            &&& digits_value(q.subrange(head.len() as int, q.len() - 2)) == a
        }),
{
    let head = "{\"command\":[\"get_property\",\""@ + property + "\"],\"request_id\":"@;
    let tail = "}\n"@;
    reveal_strlit("}\n");
    let da = decimal_spec(a as nat);
    let db = decimal_spec(b as nat);
    let qa = get_property_spec(property, a as nat);
    let qb = get_property_spec(property, b as nat);
    assert(qa =~= head + da + tail);
    assert(qb =~= head + db + tail);
    assert(qa.subrange(head.len() as int, qa.len() - 2) =~= da);
    assert(qb.subrange(head.len() as int, qb.len() - 2) =~= db);
    law_decimal_reads_back(a as nat);
    law_decimal_injective(a as nat, b as nat);
    if qa == qb {
        assert(da == db);
    }
}

/// Each property change is read as a change of the property that the
/// session subscribed to under that observer id: `sub-text` under 1, `path`
/// under 3, `aid` under 4, `sub-delay` under 5; any line with a request id is
/// read as a reply to that request, and a line that is neither is ignored.
pub proof fn law_observers_match_reading<V>(raw: RawMessage<V>)
    ensures
        observe_all_spec() == observe_property_spec(1, "sub-text"@) + observe_property_spec(
            3,
            "path"@,
        ) + observe_property_spec(4, "aid"@) + observe_property_spec(5, "sub-delay"@),
        raw.request_id matches Some(r) ==> classify_spec(raw) == (MessageView::Reply {
            request_id: r,
            data: raw.data,
            data_str: opt_str(raw.data_str),
        }),
        raw.request_id is None && opt_str(raw.event) != Some("property-change"@) ==> classify_spec(
            raw,
        ) == MessageView::<V>::Ignored,
        raw.request_id is None && opt_str(raw.event) == Some("property-change"@) ==> ({
            &&& raw.id == Some(3u64) ==> classify_spec(raw) == MessageView::<V>::PathChange(
                opt_str(raw.data_str),
            )
            &&& raw.id == Some(4u64) ==> classify_spec(raw) == MessageView::<V>::AidChange(
                raw.data_i64,
            )
            &&& raw.id == Some(5u64) && raw.data_is_number ==> classify_spec(raw)
                == MessageView::DelayChange(raw.data)
            &&& raw.id == Some(5u64) && !raw.data_is_number ==> classify_spec(raw)
                == MessageView::<V>::DelayChange(None)
            &&& raw.id == Some(1u64) ==> classify_spec(raw) == MessageView::<V>::TextChange(
                opt_str(raw.data_str),
            )
        }),
{
}

} // verus!
