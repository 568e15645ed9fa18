//! The mpv session: what the bridge decides on each line that mpv sends.
//!
//! The session follows the media path, the audio track and the subtitle
//! delay that mpv reports, and for each new subtitle text asks mpv for the
//! subtitle's start and end times and its ASS events. Once all three
//! replies have come, the subtitle leaves the session: as a
//! [`CompletedSubtitle`] where the primary track's style filter keeps its
//! events, and dropped otherwise.
//!
//! The replies' values (`V`) are carried through unread: the session only
//! tells whether a value is present.

use vstd::prelude::*;
use std::collections::HashMap;
use crate::protocol::{MpvMessage, MessageView, opt_str, timing_query_spec, timing_query_command};
use crate::filter::StyleFilter;
use crate::ass::{ass_allows, ass_kept};

verus! {

broadcast use vstd::std_specs::hash::group_hash_axioms;

/// Request ids are handed out in blocks of this size, one block per
/// subtitle; a reply's request id modulo this size tells which query of the
/// block it answers.
pub const REQUEST_BLOCK: u64 = 10;

/// The first request id handed to a subtitle; the ids below it are left to
/// the queries made before the session starts.
pub const FIRST_SUBTITLE_REQUEST_ID: u64 = 10;

/// A subtitle whose timing queries are still out.
pub struct PendingSubtitle<V> {
    pub id: u64,
    pub text: String,
    /// The reply to the `sub-start` query, once it has come.
    pub start: Option<V>,
    /// The reply to the `sub-end` query, once it has come.
    pub end: Option<V>,
    /// The reply to the `sub-text/ass-full` query, once it has come: its
    /// data where that is a string.
    pub style: Option<Option<String>>,
}

/// The view of a [`PendingSubtitle`].
pub struct PendingView<V> {
    pub id: u64,
    pub text: Seq<char>,
    pub start: Option<V>,
    pub end: Option<V>,
    pub style: Option<Option<Seq<char>>>,
}

/// The view of an optional reply that may carry a string.
pub open spec fn opt_opt_str(o: Option<Option<String>>) -> Option<Option<Seq<char>>> {
    match o {
        Some(t) => Some(opt_str(t)),
        None => None,
    }
}

impl<V> PendingView<V> {
    /// Both timing replies have come.
    pub open spec fn complete(self) -> bool {
        self.start is Some && self.end is Some
    }

    /// Records the reply to the query with the given index within the
    /// subtitle's block: 0 is `sub-start`, 1 is `sub-end`; others are
    /// ignored.
    pub open spec fn with_response(self, index: int, value: V) -> PendingView<V> {
        if index == 0 {
            PendingView { start: Some(value), ..self }
        } else if index == 1 {
            PendingView { end: Some(value), ..self }
        } else {
            self
        }
    }

    /// All three replies have come.
    pub open spec fn ready(self) -> bool {
        self.complete() && self.style is Some
    }

    /// Records the reply to the `sub-text/ass-full` query.
    pub open spec fn with_style(self, text: Option<Seq<char>>) -> PendingView<V> {
        PendingView { style: Some(text), ..self }
    }
}

impl<V> View for PendingSubtitle<V> {
    type V = PendingView<V>;

    open spec fn view(&self) -> PendingView<V> {
        PendingView {
            id: self.id,
            text: self.text@,
            start: self.start,
            end: self.end,
            style: opt_opt_str(self.style),
        }
    }
}

/// A subtitle whose timing replies have both come.
pub struct CompletedSubtitle<V> {
    pub id: u64,
    pub text: String,
    /// The reply to the `sub-start` query.
    pub start: V,
    /// The reply to the `sub-end` query.
    pub end: V,
    /// The media path current when the subtitle completed, empty where none
    /// is known.
    pub media_path: String,
    /// The audio track current when the subtitle completed.
    pub aid: i64,
}

/// The view of a [`CompletedSubtitle`].
pub struct CompletedView<V> {
    pub id: u64,
    pub text: Seq<char>,
    pub start: V,
    pub end: V,
    pub media_path: Seq<char>,
    pub aid: i64,
}

impl<V> View for CompletedSubtitle<V> {
    type V = CompletedView<V>;

    open spec fn view(&self) -> CompletedView<V> {
        CompletedView {
            id: self.id,
            text: self.text@,
            start: self.start,
            end: self.end,
            media_path: self.media_path@,
            aid: self.aid,
        }
    }
}

impl<V> PendingSubtitle<V> {
    /// A subtitle with no reply yet.
    pub fn new(id: u64, text: String) -> (p: Self)
        ensures
            p@ == (PendingView::<V> { id, text: text@, start: None, end: None, style: None }),
    {
        PendingSubtitle { id, text, start: None, end: None, style: None }
    }

    /// Records the reply to the `sub-text/ass-full` query.
    pub fn set_style(&mut self, text: Option<String>)
        ensures
            final(self)@ == old(self)@.with_style(opt_str(text)),
    {
        self.style = Some(text);
    }

    /// Whether all three replies have come.
    pub fn is_ready(&self) -> (r: bool)
        ensures
            r == self@.ready(),
    {
        self.start.is_some() && self.end.is_some() && self.style.is_some()
    }

    /// Records the reply to the query with index `index` within the
    /// subtitle's block.
    pub fn set_response(&mut self, index: usize, value: V)
        ensures
            final(self)@ == old(self)@.with_response(index as int, value),
    {
        if index == 0 {
            self.start = Some(value);
        } else if index == 1 {
            self.end = Some(value);
        }
    }

    /// Whether both timing replies have come.
    pub fn is_complete(&self) -> (r: bool)
        ensures
            r == self@.complete(),
    {
        self.start.is_some() && self.end.is_some()
    }

    /// The completed subtitle, with the media path and audio track current
    /// at completion.
    pub fn into_completed(self, media_path: String, aid: i64) -> (c: CompletedSubtitle<V>)
        requires
            self@.complete(),
        ensures
            c@ == (CompletedView {
                id: self@.id,
                text: self@.text,
                start: self@.start->0,
                end: self@.end->0,
                media_path: media_path@,
                aid,
            }),
    {
        let PendingSubtitle { id, text, start, end, style: _ } = self;
        CompletedSubtitle { id, text, start: start.unwrap(), end: end.unwrap(), media_path, aid }
    }
}

/// What the session does in answer to a line from mpv.
pub enum MpvAction<V> {
    /// Nothing to do.
    Nothing,
    /// A subtitle is complete: store it and announce it.
    Completed(CompletedSubtitle<V>),
    /// The media path changed to this path: record it and announce it.
    MediaChanged(String),
    /// A new subtitle: send `command`, which asks for its timing and its
    /// ASS events.
    QueryTiming { subtitle_id: u64, text: String, command: String },
    /// The subtitle with this id is complete, and the style filter drops it.
    Filtered { subtitle_id: u64 },
}

/// The view of a [`MpvAction`].
pub enum ActionView<V> {
    Nothing,
    Completed(CompletedView<V>),
    MediaChanged(Seq<char>),
    QueryTiming { subtitle_id: u64, text: Seq<char>, command: Seq<char> },
    Filtered { subtitle_id: u64 },
}

impl<V> View for MpvAction<V> {
    type V = ActionView<V>;

    open spec fn view(&self) -> ActionView<V> {
        match self {
            MpvAction::Nothing => ActionView::Nothing,
            MpvAction::Completed(c) => ActionView::Completed(c@),
            MpvAction::MediaChanged(p) => ActionView::MediaChanged(p@),
            MpvAction::QueryTiming { subtitle_id, text, command } => ActionView::QueryTiming {
                subtitle_id: *subtitle_id,
                text: text@,
                command: command@,
            },
            MpvAction::Filtered { subtitle_id } => ActionView::Filtered { subtitle_id: *subtitle_id },
        }
    }
}

/// Why the session refused a line.
pub enum SessionError {
    /// A new subtitle needs an id or a block of request ids beyond `u64`.
    IdsExhausted,
}

/// The session's state.
pub struct MpvSession<V> {
    current_path: Option<String>,
    current_aid: i64,
    sub_delay: Option<V>,
    pending: HashMap<u64, PendingSubtitle<V>>,
    next_subtitle_id: u64,
    next_request_id: u64,
    filter: StyleFilter,
}

/// The view of a [`MpvSession`].
pub struct SessionView<V> {
    /// The media path last reported, if any.
    pub current_path: Option<Seq<char>>,
    /// The audio track last reported.
    pub aid: i64,
    /// The subtitle delay last reported as a number, if any.
    pub sub_delay: Option<V>,
    /// The subtitles whose timing is still out, by the first request id of
    /// their block.
    pub pending: Map<u64, PendingView<V>>,
    /// The id the next subtitle gets.
    pub next_subtitle_id: u64,
    /// The first request id of the next subtitle's block.
    pub next_request_id: u64,
    /// The style filter of the primary track.
    pub filter: StyleFilter,
}

/// The state at the start of a session: no path, audio track 1, no delay,
/// nothing pending; subtitle ids from 1, request ids from 10.
pub open spec fn init_spec<V>(filter: StyleFilter) -> SessionView<V> {
    SessionView {
        current_path: None,
        aid: 1,
        sub_delay: None,
        pending: Map::empty(),
        next_subtitle_id: 1,
        next_request_id: FIRST_SUBTITLE_REQUEST_ID,
        filter,
    }
}

/// The well-formed states: request blocks are multiples of 10 below the next
/// one, subtitle ids are at least 1, below the next one and distinct, and no
/// pending subtitle has all its replies.
pub open spec fn wf_spec<V>(s: SessionView<V>) -> bool {
    &&& s.next_request_id >= FIRST_SUBTITLE_REQUEST_ID
    &&& s.next_request_id % REQUEST_BLOCK == 0
    &&& s.next_subtitle_id >= 1
    &&& s.pending.dom().finite()
    &&& forall|k: u64| #[trigger]
        s.pending.contains_key(k) ==> {
            &&& k % REQUEST_BLOCK == 0
            &&& FIRST_SUBTITLE_REQUEST_ID <= k < s.next_request_id
            &&& 1 <= s.pending[k].id < s.next_subtitle_id
            &&& !s.pending[k].ready()
        }
    &&& forall|k1: u64, k2: u64|
        #![trigger s.pending[k1], s.pending[k2]]
        s.pending.contains_key(k1) && s.pending.contains_key(k2) && k1 != k2 ==> s.pending[k1].id
            != s.pending[k2].id
}

/// The first request id of the block that `request_id` belongs to.
pub open spec fn block_of(request_id: u64) -> u64 {
    (request_id / REQUEST_BLOCK * REQUEST_BLOCK) as u64
}

/// The media path to record with a subtitle: the current one, or empty.
pub open spec fn path_or_empty(p: Option<Seq<char>>) -> Seq<char> {
    match p {
        Some(p) => p,
        None => Seq::empty(),
    }
}

/// The pending subtitles after a reply to `request_id` carrying `data`.
pub open spec fn record_reply_spec<V>(
    pending: Map<u64, PendingView<V>>,
    request_id: u64,
    data: Option<V>,
    data_str: Option<Seq<char>>,
) -> Map<u64, PendingView<V>> {
    let base = block_of(request_id);
    if !pending.contains_key(base) {
        pending
    } else if request_id % REQUEST_BLOCK == 2 {
        pending.insert(base, pending[base].with_style(data_str))
    } else {
        match data {
            Some(d) => pending.insert(
                base,
                pending[base].with_response((request_id % REQUEST_BLOCK) as int, d),
            ),
            None => pending,
        }
    }
}

/// Whether the primary track's filter keeps a subtitle with all its
/// replies: where its ASS events came as a string, as [`ass_kept`] says of
/// them; otherwise it is kept.
pub open spec fn style_kept<V>(filter: StyleFilter, p: PendingView<V>) -> bool {
    match p.style {
        Some(Some(t)) => ass_kept(filter, t),
        _ => true,
    }
}

/// What the session does with a line: the next state and the action, or
/// `None` where a new subtitle would need ids beyond `u64`.
///
/// - A reply records its data with the pending subtitle of its block, as
///   the start time (first id of the block) or the end time (second id),
///   or, as its ASS events (third id), records its string data, if any; a
///   subtitle with all three leaves the session, completed with the current
///   media path and audio track where the filter keeps it, dropped
///   otherwise.
/// - A path change to a path other than the current one becomes the
///   current path and is announced.
/// - An audio-track change or a numeric delay change is recorded.
/// - A non-empty subtitle text becomes a pending subtitle under the next
///   subtitle id and the next block of request ids, and its timing is
///   asked for.
/// - Anything else changes nothing.
pub open spec fn next_spec<V>(s: SessionView<V>, m: MessageView<V>) -> Option<
    (SessionView<V>, ActionView<V>),
> {
    match m {
        MessageView::Reply { request_id, data, data_str } => {
            let base = block_of(request_id);
            let pending1 = record_reply_spec(s.pending, request_id, data, data_str);
            if pending1.contains_key(base) && pending1[base].ready() {
                let p = pending1[base];
                if !style_kept(s.filter, p) {
                    Some(
                        (
                            SessionView { pending: pending1.remove(base), ..s },
                            ActionView::Filtered { subtitle_id: p.id },
                        ),
                    )
                } else {
                Some(
                    (
                        SessionView { pending: pending1.remove(base), ..s },
                        ActionView::Completed(
                            CompletedView {
                                id: p.id,
                                text: p.text,
                                start: p.start->0,
                                end: p.end->0,
                                media_path: path_or_empty(s.current_path),
                                aid: s.aid,
                            },
                        ),
                    ),
                )
                }
            } else {
                Some((SessionView { pending: pending1, ..s }, ActionView::Nothing))
            }
        },
        MessageView::PathChange(Some(p)) => {
            if s.current_path == Some(p) {
                Some((s, ActionView::Nothing))
            } else {
                Some((SessionView { current_path: Some(p), ..s }, ActionView::MediaChanged(p)))
            }
        },
        MessageView::AidChange(Some(a)) => Some((SessionView { aid: a, ..s }, ActionView::Nothing)),
        MessageView::DelayChange(Some(d)) => Some(
            (SessionView { sub_delay: Some(d), ..s }, ActionView::Nothing),
        ),
        MessageView::TextChange(Some(t)) => {
            if t.len() == 0 {
                Some((s, ActionView::Nothing))
            } else if s.next_subtitle_id == u64::MAX || s.next_request_id > u64::MAX
                - REQUEST_BLOCK {
                None
            } else {
                let base = s.next_request_id;
                let id = s.next_subtitle_id;
                Some(
                    (
                        SessionView {
                            pending: s.pending.insert(
                                base,
                                PendingView { id, text: t, start: None, end: None, style: None },
                            ),
                            next_subtitle_id: (id + 1) as u64,
                            next_request_id: (base + REQUEST_BLOCK) as u64,
                            ..s
                        },
                        ActionView::QueryTiming {
                            subtitle_id: id,
                            text: t,
                            command: timing_query_spec(base as nat),
                        },
                    ),
                )
            }
        },
        _ => Some((s, ActionView::Nothing)),
    }
}

impl<V> MpvSession<V> {
    /// The session's state as a mathematical value.
    pub closed spec fn view(&self) -> SessionView<V> {
        SessionView {
            current_path: opt_str(self.current_path),
            aid: self.current_aid,
            sub_delay: self.sub_delay,
            pending: self.pending@.map_values(|p: PendingSubtitle<V>| p@),
            next_subtitle_id: self.next_subtitle_id,
            next_request_id: self.next_request_id,
            filter: self.filter,
        }
    }

    /// A session that has seen nothing yet, whose subtitles pass `filter`.
    pub fn new(filter: StyleFilter) -> (s: Self)
        ensures
            s.view() == init_spec::<V>(filter),
            wf_spec(s.view()),
    {
        let s = MpvSession {
            current_path: None,
            current_aid: 1,
            sub_delay: None,
            pending: HashMap::new(),
            next_subtitle_id: 1,
            next_request_id: FIRST_SUBTITLE_REQUEST_ID,
            filter,
        };
        assert(s.view().pending =~= Map::empty());
        s
    }

    /// The subtitle delay last reported as a number, if any.
    pub fn sub_delay(&self) -> (d: &Option<V>)
        ensures
            *d == self.view().sub_delay,
    {
        &self.sub_delay
    }

    /// The media path last reported, if any.
    pub fn current_path(&self) -> (p: &Option<String>)
        ensures
            opt_str(*p) == self.view().current_path,
    {
        &self.current_path
    }

    /// Answers one line from mpv, as [`next_spec`] says.
    pub fn step(&mut self, msg: MpvMessage<V>) -> (r: Result<MpvAction<V>, SessionError>)
        requires
            wf_spec(old(self).view()),
        ensures
            match next_spec(old(self).view(), msg@) {
                Some((s, a)) => r matches Ok(act) && final(self).view() == s && act@ == a,
                None => r is Err && final(self).view() == old(self).view(),
            },
            wf_spec(final(self).view()),
    {
        proof {
            if next_spec(self.view(), msg@) is Some {
                lemma_next_preserves_wf(self.view(), msg@);
            }
        }
        match msg {
            MpvMessage::Reply { request_id, data, data_str } => Ok(
                self.on_reply(request_id, data, data_str),
            ),
            MpvMessage::PathChange(Some(p)) => {
                let same = match &self.current_path {
                    Some(c) => *c == p,
                    None => false,
                };
                if same {
                    Ok(MpvAction::Nothing)
                } else {
                    let announced = p.clone();
                    self.current_path = Some(p);
                    Ok(MpvAction::MediaChanged(announced))
                }
            },
            MpvMessage::AidChange(Some(a)) => {
                self.current_aid = a;
                Ok(MpvAction::Nothing)
            },
            MpvMessage::DelayChange(Some(d)) => {
                self.sub_delay = Some(d);
                Ok(MpvAction::Nothing)
            },
            MpvMessage::TextChange(Some(t)) => self.on_text(t),
            _ => Ok(MpvAction::Nothing),
        }
    }

    fn on_reply(&mut self, request_id: u64, data: Option<V>, data_str: Option<String>) -> (act:
        MpvAction<V>)
        requires
            wf_spec(old(self).view()),
        ensures
            next_spec(
                old(self).view(),
                MessageView::Reply { request_id, data, data_str: opt_str(data_str) },
            ) == Some((final(self).view(), act@)),
    {
        let ghost s0 = self.view();
        let ghost ds = opt_str(data_str);
        let base = request_id / REQUEST_BLOCK * REQUEST_BLOCK;
        let index = (request_id % REQUEST_BLOCK) as usize;
        assert(base == block_of(request_id));
        if index == 2 {
            if let Some(mut p) = self.pending.remove(&base) {
                p.set_style(data_str);
                self.pending.insert(base, p);
            }
        } else if let Some(d) = data {
            if let Some(mut p) = self.pending.remove(&base) {
                p.set_response(index, d);
                self.pending.insert(base, p);
            }
        }
        assert(self.view().pending =~= record_reply_spec(s0.pending, request_id, data, ds));
        let ready = match self.pending.get(&base) {
            Some(p) => p.is_ready(),
            None => false,
        };
        if ready {
            match self.pending.remove(&base) {
                Some(p) => {
                    assert(self.view().pending =~= record_reply_spec(
                        s0.pending,
                        request_id,
                        data,
                        ds,
                    ).remove(base));
                    let kept = match &p.style {
                        Some(Some(t)) => ass_allows(&self.filter, t.as_str()),
                        _ => true,
                    };
                    if !kept {
                        return MpvAction::Filtered { subtitle_id: p.id };
                    }
                    let media_path = match &self.current_path {
                        Some(c) => c.clone(),
                        None => String::new(),
                    };
                    MpvAction::Completed(p.into_completed(media_path, self.current_aid))
                },
                None => MpvAction::Nothing,
            }
        } else {
            MpvAction::Nothing
        }
    }

    fn on_text(&mut self, t: String) -> (r: Result<MpvAction<V>, SessionError>)
        requires
            wf_spec(old(self).view()),
        ensures
            match next_spec(old(self).view(), MessageView::TextChange(Some(t@))) {
                Some((s, a)) => r matches Ok(act) && final(self).view() == s && act@ == a,
                None => r is Err && final(self).view() == old(self).view(),
            },
    {
        let ghost s0 = self.view();
        if t.as_str().is_empty() {
            return Ok(MpvAction::Nothing);
        }
        if self.next_subtitle_id == u64::MAX || self.next_request_id > u64::MAX - REQUEST_BLOCK {
            return Err(SessionError::IdsExhausted);
        }
        let id = self.next_subtitle_id;
        let base = self.next_request_id;
        self.next_subtitle_id = id + 1;
        self.next_request_id = base + REQUEST_BLOCK;
        let command = timing_query_command(base);
        let text = t.clone();
        self.pending.insert(base, PendingSubtitle::new(id, t));
        assert(self.view().pending =~= s0.pending.insert(
            base,
            PendingView { id, text: text@, start: None, end: None, style: None },
        ));
        Ok(MpvAction::QueryTiming { subtitle_id: id, text, command })
    }
}

/// Every line keeps a well-formed state well-formed.
pub proof fn lemma_next_preserves_wf<V>(s: SessionView<V>, m: MessageView<V>)
    requires
        wf_spec(s),
        next_spec(s, m) is Some,
    ensures
        wf_spec((next_spec(s, m)->0).0),
{
    let s2 = (next_spec(s, m)->0).0;
    match m {
        MessageView::Reply { request_id, data, data_str } => {
            let base = block_of(request_id);
            let p1 = record_reply_spec(s.pending, request_id, data, data_str);
            assert forall|k: u64| #[trigger] p1.contains_key(k) implies s.pending.contains_key(k)
                && p1[k].id == s.pending[k].id && (k != base ==> p1[k] == s.pending[k]) by {}
            if p1.contains_key(base) && p1[base].ready() {
                assert(s2.pending == p1.remove(base));
            } else {
                assert(s2.pending == p1);
            }
            assert forall|k1: u64, k2: u64|
                #![trigger s2.pending[k1], s2.pending[k2]]
                s2.pending.contains_key(k1) && s2.pending.contains_key(k2) && k1 != k2 implies s2.pending[k1].id
                    != s2.pending[k2].id by {
                assert(p1.contains_key(k1) && p1.contains_key(k2));
                assert(s.pending[k1].id != s.pending[k2].id);
            }
        },
        MessageView::TextChange(Some(t)) => {
            if t.len() != 0 {
                let base = s.next_request_id;
                assert(!s.pending.contains_key(base));
                assert forall|k1: u64, k2: u64|
                    #![trigger s2.pending[k1], s2.pending[k2]]
                    s2.pending.contains_key(k1) && s2.pending.contains_key(k2) && k1 != k2 implies s2.pending[k1].id
                        != s2.pending[k2].id by {
                    if k1 != base && k2 != base {
                        assert(s.pending[k1].id != s.pending[k2].id);
                    }
                }
            }
        },
        _ => {},
    }
}

/// A new subtitle text, then the replies to its three queries, settle the
/// subtitle: where the filter keeps the ASS events of the third reply, it
/// leaves the session completed with the text, the two timing replies'
/// data, and the media path and audio track of the moment; otherwise it is
/// dropped. Either way, what else was pending is as before. The timing
/// replies may come in either order.
pub proof fn law_timing_replies_complete_subtitle<V>(
    s: SessionView<V>,
    t: Seq<char>,
    start: V,
    end: V,
    ass: Option<Seq<char>>,
    ass_data: Option<V>,
    end_first: bool,
)
    requires
        wf_spec(s),
        t.len() > 0,
        s.next_subtitle_id < u64::MAX,
        s.next_request_id <= u64::MAX - REQUEST_BLOCK,
    ensures
        ({
            let base = s.next_request_id;
            let id = s.next_subtitle_id;
            let (s1, a1) = next_spec(s, MessageView::TextChange(Some(t)))->0;
            let start_reply = MessageView::Reply { request_id: base, data: Some(start), data_str: None };
            let end_reply = MessageView::Reply {
                request_id: (base + 1) as u64,
                data: Some(end),
                data_str: None,
            };
            let ass_reply = MessageView::Reply {
                request_id: (base + 2) as u64,
                data: ass_data,
                data_str: ass,
            };
            let first = if end_first { end_reply } else { start_reply };
            let second = if end_first { start_reply } else { end_reply };
            let (s2, a2) = next_spec(s1, first)->0;
            let (s3, a3) = next_spec(s2, second)->0;
            let (s4, a4) = next_spec(s3, ass_reply)->0;
            let kept = match ass {
                Some(text) => ass_kept(s.filter, text),
                None => true,
            };
            &&& a1 == ActionView::<V>::QueryTiming {
                subtitle_id: id,
                text: t,
                command: timing_query_spec(base as nat),
            }
            &&& a2 == ActionView::<V>::Nothing
            &&& a3 == ActionView::<V>::Nothing
            &&& kept ==> a4 == ActionView::Completed(
                CompletedView {
                    id,
                    text: t,
                    start,
                    end,
                    media_path: path_or_empty(s.current_path),
                    aid: s.aid,
                },
            )
            &&& !kept ==> a4 == ActionView::<V>::Filtered { subtitle_id: id }
            &&& s4.pending == s.pending
            &&& s4.next_subtitle_id == id + 1
            &&& s4.next_request_id == base + REQUEST_BLOCK
        }),
{
    let base = s.next_request_id;
    let (s1, a1) = next_spec(s, MessageView::TextChange(Some(t)))->0;
    assert(block_of(base) == base) by {
        assert(base % 10 == 0);
    }
    assert(block_of((base + 1) as u64) == base) by {
        assert(base % 10 == 0);
    }
    assert(block_of((base + 2) as u64) == base) by {
        assert(base % 10 == 0);
    }
    assert(((base + 1) as u64) % REQUEST_BLOCK == 1) by {
        assert(base % 10 == 0);
    }
    assert(((base + 2) as u64) % REQUEST_BLOCK == 2) by {
        assert(base % 10 == 0);
    }
    assert(base % REQUEST_BLOCK == 0);
    assert(!s.pending.contains_key(base));
    let start_reply = MessageView::Reply { request_id: base, data: Some(start), data_str: None };
    let end_reply = MessageView::Reply {
        request_id: (base + 1) as u64,
        data: Some(end),
        data_str: None,
    };
    let ass_reply = MessageView::Reply { request_id: (base + 2) as u64, data: ass_data, data_str: ass };
    let first = if end_first { end_reply } else { start_reply };
    let (s2, a2) = next_spec(s1, first)->0;
    assert(s2.pending.contains_key(base));
    let second = if end_first { start_reply } else { end_reply };
    let (s3, a3) = next_spec(s2, second)->0;
    assert(s3.pending.contains_key(base));
    assert(s3.pending[base].style is None);
    let (s4, a4) = next_spec(s3, ass_reply)->0;
    assert(s4.pending =~= s.pending);
}

/// A media path is announced when it differs from the current one, and a
/// second report of the same path announces nothing and changes nothing.
pub proof fn law_path_announced_once<V>(s: SessionView<V>, p: Seq<char>)
    ensures
        ({
            let (s1, a1) = next_spec(s, MessageView::PathChange(Some(p)))->0;
            let (s2, a2) = next_spec(s1, MessageView::PathChange(Some(p)))->0;
            &&& (a1 == ActionView::<V>::MediaChanged(p) <==> s.current_path != Some(p))
            &&& (a1 == ActionView::<V>::Nothing <==> s.current_path == Some(p))
            &&& s1.current_path == Some(p)
            &&& a2 == ActionView::<V>::Nothing
            &&& s2 == s1
        }),
{
}

/// A reply whose block holds no pending subtitle changes nothing and asks
/// for nothing.
pub proof fn law_unrelated_reply_changes_nothing<V>(
    s: SessionView<V>,
    request_id: u64,
    data: Option<V>,
    data_str: Option<Seq<char>>,
)
    requires
        wf_spec(s),
        !s.pending.contains_key(block_of(request_id)),
    ensures
        next_spec(s, MessageView::Reply { request_id, data, data_str }) == Some(
            (s, ActionView::<V>::Nothing),
        ),
{
}

/// Each new subtitle gets the next subtitle id, which no pending subtitle
/// holds and which is above every id handed out before, and the next block
/// of request ids; no other line changes the counters.
pub proof fn law_ids_are_fresh<V>(s: SessionView<V>, m: MessageView<V>)
    requires
        wf_spec(s),
        next_spec(s, m) is Some,
    ensures
        ({
            let (s2, a) = next_spec(s, m)->0;
            match a {
                ActionView::QueryTiming { subtitle_id, .. } => {
                    &&& subtitle_id == s.next_subtitle_id
                    &&& forall|k: u64| #[trigger]
                        s.pending.contains_key(k) ==> s.pending[k].id < subtitle_id
                    &&& !s.pending.contains_key(s.next_request_id)
                    &&& s2.pending.contains_key(s.next_request_id)
                    &&& s2.next_subtitle_id == subtitle_id + 1
                    &&& s2.next_request_id == s.next_request_id + REQUEST_BLOCK
                },
                _ => {
                    &&& s2.next_subtitle_id == s.next_subtitle_id
                    &&& s2.next_request_id == s.next_request_id
                },
            }
        }),
{
}

/// A subtitle is settled once: after the reply that completes or drops it,
/// its block is no longer pending, so any further reply to that block
/// changes nothing.
pub proof fn law_completion_is_final<V>(
    s: SessionView<V>,
    request_id: u64,
    data: Option<V>,
    data_str: Option<Seq<char>>,
    later_id: u64,
    later_data: Option<V>,
    later_str: Option<Seq<char>>,
)
    requires
        wf_spec(s),
        (next_spec(s, MessageView::Reply { request_id, data, data_str })->0).1 is Completed || (
        next_spec(s, MessageView::Reply { request_id, data, data_str })->0).1 is Filtered,
        block_of(later_id) == block_of(request_id),
    ensures
        ({
            let s1 = (next_spec(s, MessageView::Reply { request_id, data, data_str })->0).0;
            &&& !s1.pending.contains_key(block_of(request_id))
            &&& next_spec(
                s1,
                MessageView::Reply { request_id: later_id, data: later_data, data_str: later_str },
            ) == Some((s1, ActionView::<V>::Nothing))
        }),
{
    lemma_next_preserves_wf(s, MessageView::Reply { request_id, data, data_str });
}

/// The primary track's filter decides how a subtitle with all its replies
/// leaves the session: it is completed only where the filter keeps its ASS
/// events, and dropped, never completed, where it does not.
pub proof fn law_filter_decides_completion<V>(
    s: SessionView<V>,
    request_id: u64,
    data: Option<V>,
    data_str: Option<Seq<char>>,
)
    requires
        wf_spec(s),
    ensures
        ({
            let base = block_of(request_id);
            let p1 = record_reply_spec(s.pending, request_id, data, data_str);
            let a = (next_spec(s, MessageView::Reply { request_id, data, data_str })->0).1;
            &&& a is Completed ==> p1.contains_key(base) && p1[base].ready() && style_kept(
                s.filter,
                p1[base],
            ) && a->Completed_0.id == p1[base].id
            &&& a is Filtered ==> p1.contains_key(base) && p1[base].ready() && !style_kept(
                s.filter,
                p1[base],
            ) && a->Filtered_subtitle_id == p1[base].id
            &&& (p1.contains_key(base) && p1[base].ready()) ==> (a is Completed || a is Filtered)
        }),
{
}

/// A pending subtitle after the replies `ops` were recorded in order, each
/// as an index within its block and a value.
pub open spec fn apply_responses<V>(p: PendingView<V>, ops: Seq<(int, V)>) -> PendingView<V>
    decreases ops.len(),
{
    if ops.len() == 0 {
        p
    } else {
        apply_responses(p, ops.drop_last()).with_response(ops.last().0, ops.last().1)
    }
}

proof fn lemma_apply_responses<V>(p: PendingView<V>, ops: Seq<(int, V)>)
    requires
        p.start is None,
        p.end is None,
    ensures
        apply_responses(p, ops).id == p.id,
        apply_responses(p, ops).text == p.text,
        apply_responses(p, ops).start is Some <==> exists|j: int| 0 <= j < ops.len() && #[trigger] ops[j].0 == 0,
        apply_responses(p, ops).end is Some <==> exists|j: int| 0 <= j < ops.len() && #[trigger] ops[j].0 == 1,
    decreases ops.len(),
{
    if ops.len() > 0 {
        let front = ops.drop_last();
        lemma_apply_responses(p, front);
        if exists|j: int| 0 <= j < front.len() && #[trigger] front[j].0 == 0 {
            let j = choose|j: int| 0 <= j < front.len() && #[trigger] front[j].0 == 0;
            assert(ops[j].0 == 0);
        }
        if exists|j: int| 0 <= j < front.len() && #[trigger] front[j].0 == 1 {
            let j = choose|j: int| 0 <= j < front.len() && #[trigger] front[j].0 == 1;
            assert(ops[j].0 == 1);
        }
        if exists|j: int| 0 <= j < ops.len() && #[trigger] ops[j].0 == 0 {
            let j = choose|j: int| 0 <= j < ops.len() && #[trigger] ops[j].0 == 0;
            if j < front.len() {
                assert(front[j].0 == 0);
            }
        }
        if exists|j: int| 0 <= j < ops.len() && #[trigger] ops[j].0 == 1 {
            let j = choose|j: int| 0 <= j < ops.len() && #[trigger] ops[j].0 == 1;
            if j < front.len() {
                assert(front[j].0 == 1);
            }
        }
    }
}

/// A new pending subtitle is complete after a sequence of recorded replies
/// exactly when one of them answered its `sub-start` query (index 0) and
/// one its `sub-end` query (index 1); replies with any other index never
/// count, and its id and text stay.
pub proof fn law_complete_after_responses<V>(id: u64, text: Seq<char>, ops: Seq<(int, V)>)
    ensures
        ({
            let p = apply_responses(PendingView::<V> { id, text, start: None, end: None, style: None }, ops);
            &&& p.complete() <==> (exists|j: int| 0 <= j < ops.len() && #[trigger] ops[j].0 == 0)
                && (exists|j: int| 0 <= j < ops.len() && #[trigger] ops[j].0 == 1)
            &&& p.id == id
            &&& p.text == text
        }),
{
    lemma_apply_responses(PendingView::<V> { id, text, start: None, end: None, style: None }, ops);
}

/// The state and actions after the lines `msgs`, one after the other, or
/// `None` where one of them is refused.
pub open spec fn run_spec<V>(s: SessionView<V>, msgs: Seq<MessageView<V>>) -> Option<
    (SessionView<V>, Seq<ActionView<V>>),
>
    decreases msgs.len(),
{
    if msgs.len() == 0 {
        Some((s, Seq::empty()))
    } else {
        match run_spec(s, msgs.drop_last()) {
            None => None,
            Some((s1, acts)) => match next_spec(s1, msgs.last()) {
                None => None,
                Some((s2, a)) => Some((s2, acts.push(a))),
            },
        }
    }
}

/// The ids of the completed subtitles among `acts`, in order.
pub open spec fn completed_ids<V>(acts: Seq<ActionView<V>>) -> Seq<u64>
    decreases acts.len(),
{
    if acts.len() == 0 {
        Seq::empty()
    } else {
        match acts.last() {
            ActionView::Completed(c) => completed_ids(acts.drop_last()).push(c.id),
            _ => completed_ids(acts.drop_last()),
        }
    }
}

/// The store that results from storing each completed subtitle among `acts`
/// under its id, in order.
pub open spec fn replay_store<V>(acts: Seq<ActionView<V>>) -> Map<u64, CompletedView<V>>
    decreases acts.len(),
{
    if acts.len() == 0 {
        Map::empty()
    } else {
        match acts.last() {
            ActionView::Completed(c) => replay_store(acts.drop_last()).insert(c.id, c),
            _ => replay_store(acts.drop_last()),
        }
    }
}

proof fn lemma_record_reply_keeps_ids<V>(
    pending: Map<u64, PendingView<V>>,
    request_id: u64,
    data: Option<V>,
    data_str: Option<Seq<char>>,
)
    ensures
        forall|k: u64| #[trigger]
            record_reply_spec(pending, request_id, data, data_str).contains_key(k) <==> pending.contains_key(k),
        forall|k: u64|
            pending.contains_key(k) ==> #[trigger] record_reply_spec(pending, request_id, data, data_str)[k].id
                == pending[k].id && record_reply_spec(pending, request_id, data, data_str)[k].text
                == pending[k].text,
{
}

/// What holds after any run from a well-formed state.
pub open spec fn run_invariant<V>(s: SessionView<V>, acts: Seq<ActionView<V>>) -> bool {
    let ids = completed_ids(acts);
    let store = replay_store(acts);
    &&& wf_spec(s)
    &&& ids.no_duplicates()
    &&& forall|i: int| 0 <= i < ids.len() ==> #[trigger] ids[i] < s.next_subtitle_id
    &&& forall|i: int, k: u64|
        0 <= i < ids.len() && s.pending.contains_key(k) ==> #[trigger] s.pending[k].id
            != #[trigger] ids[i]
    &&& forall|k: u64| #[trigger] store.contains_key(k) <==> ids.contains(k)
    &&& forall|k: u64| #[trigger] store.contains_key(k) ==> store[k].id == k
    &&& forall|i: int|
        0 <= i < acts.len() && #[trigger] acts[i] is Completed ==> store.contains_key(
            acts[i]->Completed_0.id,
        ) && store[acts[i]->Completed_0.id] == acts[i]->Completed_0
}

proof fn lemma_run_invariant<V>(s: SessionView<V>, msgs: Seq<MessageView<V>>)
    requires
        wf_spec(s),
        run_spec(s, msgs) is Some,
    ensures
        run_invariant((run_spec(s, msgs)->0).0, (run_spec(s, msgs)->0).1),
    decreases msgs.len(),
{
    if msgs.len() == 0 {
        let acts = Seq::<ActionView<V>>::empty();
        assert(replay_store(acts) =~= Map::<u64, CompletedView<V>>::empty());
        assert(completed_ids(acts) =~= Seq::<u64>::empty());
    } else {
        let front = msgs.drop_last();
        lemma_run_invariant(s, front);
        let (s1, acts) = run_spec(s, front)->0;
        let m = msgs.last();
        let (s2, a) = next_spec(s1, m)->0;
        lemma_next_preserves_wf(s1, m);
        let acts2 = acts.push(a);
        assert(acts2.drop_last() =~= acts);
        let ids = completed_ids(acts);
        let store = replay_store(acts);
        match a {
            ActionView::Completed(c) => {
                let request_id = m->Reply_request_id;
                let data = m->Reply_data;
                let data_str = m->Reply_data_str;
                let base = block_of(request_id);
                lemma_record_reply_keeps_ids(s1.pending, request_id, data, data_str);
                let p1 = record_reply_spec(s1.pending, request_id, data, data_str);
                assert(s1.pending.contains_key(base));
                assert(c.id == s1.pending[base].id);
                assert(!ids.contains(c.id)) by {
                    if ids.contains(c.id) {
                        let i = choose|i: int| 0 <= i < ids.len() && ids[i] == c.id;
                        assert(s1.pending[base].id != ids[i]);
                    }
                }
                let ids2 = completed_ids(acts2);
                assert(ids2 == ids.push(c.id));
                assert(ids2.no_duplicates()) by {
                    assert forall|i: int, j: int|
                        0 <= i < ids2.len() && 0 <= j < ids2.len() && i != j implies ids2[i]
                        != ids2[j] by {
                        if i == ids.len() {
                            assert(ids2[j] == ids[j]);
                        } else if j == ids.len() {
                            assert(ids2[i] == ids[i]);
                        }
                    }
                }
                assert forall|i: int, k: u64|
                    0 <= i < ids2.len() && s2.pending.contains_key(k) implies #[trigger] s2.pending[k].id
                    != #[trigger] ids2[i] by {
                    assert(k != base);
                    assert(s2.pending[k].id == s1.pending[k].id);
                    if i == ids.len() {
                        assert(s1.pending[k].id != s1.pending[base].id);
                    } else {
                        assert(ids2[i] == ids[i]);
                    }
                }
                assert forall|i: int| 0 <= i < ids2.len() implies #[trigger] ids2[i] < s2.next_subtitle_id by {
                    if i < ids.len() {
                        assert(ids2[i] == ids[i]);
                    }
                }
                let store2 = replay_store(acts2);
                assert(store2 == store.insert(c.id, c));
                assert forall|k: u64| #[trigger] store2.contains_key(k) <==> ids2.contains(k) by {
                    if ids2.contains(k) && k != c.id {
                        let i = choose|i: int| 0 <= i < ids2.len() && ids2[i] == k;
                        assert(ids[i] == k);
                    }
                    if store.contains_key(k) {
                        let i = choose|i: int| 0 <= i < ids.len() && ids[i] == k;
                        assert(ids2[i] == k);
                    }
                    assert(ids2[ids.len() as int] == c.id);
                }
                assert forall|i: int|
                    0 <= i < acts2.len() && #[trigger] acts2[i] is Completed implies store2.contains_key(
                    acts2[i]->Completed_0.id,
                ) && store2[acts2[i]->Completed_0.id] == acts2[i]->Completed_0 by {
                    if i < acts.len() {
                        assert(acts2[i] == acts[i]);
                        let d = acts[i]->Completed_0.id;
                        assert(store.contains_key(d));
                        assert(ids.contains(d));
                    }
                }
            },
            _ => {
                assert(completed_ids(acts2) == ids);
                assert(replay_store(acts2) == store);
                match m {
                    MessageView::Reply { request_id, data, data_str } => {
                        lemma_record_reply_keeps_ids(s1.pending, request_id, data, data_str);
                    },
                    _ => {},
                }
                assert forall|i: int, k: u64|
                    0 <= i < ids.len() && s2.pending.contains_key(k) implies #[trigger] s2.pending[k].id
                    != #[trigger] ids[i] by {
                    if !s1.pending.contains_key(k) {
                        assert(s2.pending[k].id == s1.next_subtitle_id);
                    } else {
                        assert(s2.pending[k].id == s1.pending[k].id);
                    }
                }
                assert forall|i: int|
                    0 <= i < acts2.len() && #[trigger] acts2[i] is Completed implies store.contains_key(
                    acts2[i]->Completed_0.id,
                ) && store[acts2[i]->Completed_0.id] == acts2[i]->Completed_0 by {
                    assert(acts2[i] == acts[i]);
                }
            },
        }
    }
}

/// Over any run of lines from a well-formed state: each subtitle id is
/// completed at most once and is below the next id to be handed out;
/// storing the completed subtitles under their ids gives a store whose keys
/// are exactly the completed ids, each key holding the subtitle with that
/// id, and every completed subtitle stays in it as it was announced.
pub proof fn law_run_completes_each_id_once<V>(s: SessionView<V>, msgs: Seq<MessageView<V>>)
    requires
        wf_spec(s),
        run_spec(s, msgs) is Some,
    ensures
        ({
            let (s2, acts) = run_spec(s, msgs)->0;
            let ids = completed_ids(acts);
            let store = replay_store(acts);
            &&& ids.no_duplicates()
            &&& forall|i: int| 0 <= i < ids.len() ==> #[trigger] ids[i] < s2.next_subtitle_id
            &&& forall|k: u64| #[trigger] store.contains_key(k) <==> ids.contains(k)
            &&& forall|k: u64| #[trigger] store.contains_key(k) ==> store[k].id == k
            &&& forall|i: int|
                0 <= i < acts.len() && #[trigger] acts[i] is Completed ==> store.contains_key(
                    acts[i]->Completed_0.id,
                ) && store[acts[i]->Completed_0.id] == acts[i]->Completed_0
        }),
{
    lemma_run_invariant(s, msgs);
}

/// The lines that leave the state as it is and ask for nothing: anything
/// not understood (not JSON, or neither a reply nor a `property-change`),
/// a change whose data does not have the property's type, an empty text,
/// and a reply whose block holds no pending subtitle.
pub open spec fn is_inert<V>(s: SessionView<V>, m: MessageView<V>) -> bool {
    match m {
        MessageView::Ignored => true,
        MessageView::PathChange(p) => p is None,
        MessageView::AidChange(a) => a is None,
        MessageView::DelayChange(d) => d is None,
        MessageView::TextChange(t) => t is None || t->0.len() == 0,
        MessageView::Reply { request_id, .. } => !s.pending.contains_key(block_of(request_id)),
    }
}

/// An inert line leaves the state unchanged and asks for nothing.
pub proof fn law_inert_line_changes_nothing<V>(s: SessionView<V>, m: MessageView<V>)
    requires
        wf_spec(s),
        is_inert(s, m),
    ensures
        next_spec(s, m) == Some((s, ActionView::<V>::Nothing)),
{
}

proof fn lemma_run_concat<V>(s: SessionView<V>, a: Seq<MessageView<V>>, b: Seq<MessageView<V>>)
    ensures
        run_spec(s, a + b) == match run_spec(s, a) {
            None => None,
            Some((s1, acts1)) => match run_spec(s1, b) {
                None => None,
                Some((s2, acts2)) => Some((s2, acts1 + acts2)),
            },
        },
    decreases b.len(),
{
    if b.len() == 0 {
        assert(a + b =~= a);
        match run_spec(s, a) {
            Some((s1, acts1)) => {
                assert(acts1 + Seq::<ActionView<V>>::empty() =~= acts1);
            },
            None => {},
        }
    } else {
        lemma_run_concat(s, a, b.drop_last());
        assert((a + b).drop_last() =~= a + b.drop_last());
        assert((a + b).last() == b.last());
        match run_spec(s, a) {
            Some((s1, acts1)) => match run_spec(s1, b.drop_last()) {
                Some((s2, acts2)) => {
                    match next_spec(s2, b.last()) {
                        Some((s3, x)) => {
                            assert((acts1 + acts2).push(x) =~= acts1 + acts2.push(x));
                        },
                        None => {},
                    }
                },
                None => {},
            },
            None => {},
        }
    }
}

/// Inserting a line that leaves the state as it is (such as an inert line)
/// into a run changes nothing else: the run reaches the same state and
/// answers every other line as before, in the same order, with one
/// `Nothing` more where the line stands.
pub proof fn law_inserted_inert_line_changes_no_run<V>(
    s: SessionView<V>,
    before: Seq<MessageView<V>>,
    x: MessageView<V>,
    after: Seq<MessageView<V>>,
)
    requires
        run_spec(s, before) is Some,
        next_spec((run_spec(s, before)->0).0, x) == Some(
            ((run_spec(s, before)->0).0, ActionView::<V>::Nothing),
        ),
    ensures
        ({
            let (s1, acts1) = run_spec(s, before)->0;
            &&& run_spec(s, before + after) == match run_spec(s1, after) {
                None => None,
                Some((s2, acts2)) => Some((s2, acts1 + acts2)),
            }
            &&& run_spec(s, before.push(x) + after) == match run_spec(s1, after) {
                None => None,
                Some((s2, acts2)) => Some((s2, acts1.push(ActionView::<V>::Nothing) + acts2)),
            }
        }),
{
    lemma_run_concat(s, before, after);
    lemma_run_concat(s, before.push(x), after);
    assert(before.push(x).drop_last() =~= before);
}

/// The delay of the last numeric delay change among `msgs`, or `initial`
/// where there is none.
pub open spec fn last_delay<V>(initial: Option<V>, msgs: Seq<MessageView<V>>) -> Option<V>
    decreases msgs.len(),
{
    if msgs.len() == 0 {
        initial
    } else {
        match msgs.last() {
            MessageView::DelayChange(Some(d)) => Some(d),
            _ => last_delay(initial, msgs.drop_last()),
        }
    }
}

/// After any run, the recorded subtitle delay is the one of the latest
/// numeric delay change: each such change replaces the delay recorded
/// before it, and no other line touches it.
pub proof fn law_latest_delay_is_recorded<V>(s: SessionView<V>, msgs: Seq<MessageView<V>>)
    requires
        run_spec(s, msgs) is Some,
    ensures
        (run_spec(s, msgs)->0).0.sub_delay == last_delay(s.sub_delay, msgs),
    decreases msgs.len(),
{
    if msgs.len() > 0 {
        law_latest_delay_is_recorded(s, msgs.drop_last());
    }
}

} // verus!
