//! Completed subtitles, kept by id, and the planning of the media requests
//! that clients make about them.
//!
//! A subtitle's times (`T`) are carried through unread.

use vstd::prelude::*;
use std::collections::HashMap;

verus! {

broadcast use vstd::std_specs::hash::group_hash_axioms;

/// A subtitle line with its timing, the media it belongs to and the audio
/// track that was selected.
#[derive(Clone)]
pub struct Subtitle<T> {
    pub id: u64,
    pub text: String,
    pub sub_start: T,
    pub sub_end: T,
    pub media_path: String,
    pub aid: i64,
}

/// The view of a [`Subtitle`].
pub struct SubtitleView<T> {
    pub id: u64,
    pub text: Seq<char>,
    pub sub_start: T,
    pub sub_end: T,
    pub media_path: Seq<char>,
    pub aid: i64,
}

impl<T> View for Subtitle<T> {
    type V = SubtitleView<T>;

    open spec fn view(&self) -> SubtitleView<T> {
        SubtitleView {
            id: self.id,
            text: self.text@,
            sub_start: self.sub_start,
            sub_end: self.sub_end,
            media_path: self.media_path@,
            aid: self.aid,
        }
    }
}

/// What clients are told about.
#[derive(Clone)]
pub enum SubtitleEvent<T> {
    /// A new subtitle.
    New(Subtitle<T>),
    /// The media path changed to this one.
    MediaChanged(String),
}

/// Copies a subtitle, with its end time replaced by `sub_end`.
pub fn copy_subtitle_with_end<T: Copy>(s: &Subtitle<T>, sub_end: T) -> (c: Subtitle<T>)
    ensures
        c@ == (SubtitleView { sub_end, ..s@ }),
{
    Subtitle {
        id: s.id,
        text: s.text.clone(),
        sub_start: s.sub_start,
        sub_end,
        media_path: s.media_path.clone(),
        aid: s.aid,
    }
}

/// The completed subtitles, by id.
pub struct SubtitleStore<T> {
    subtitles: HashMap<u64, Subtitle<T>>,
}

impl<T> SubtitleStore<T> {
    /// The stored subtitles, by id.
    pub closed spec fn view(&self) -> Map<u64, SubtitleView<T>> {
        self.subtitles@.map_values(|s: Subtitle<T>| s@)
    }

    /// An empty store.
    pub fn new() -> (st: Self)
        ensures
            st.view() == Map::<u64, SubtitleView<T>>::empty(),
    {
        let st = SubtitleStore { subtitles: HashMap::new() };
        assert(st.view() =~= Map::empty());
        st
    }

    /// Stores `sub` under its id, in place of any subtitle stored there.
    pub fn insert(&mut self, sub: Subtitle<T>)
        ensures
            final(self).view() == old(self).view().insert(sub.id, sub@),
    {
        let ghost v = sub@;
        let id = sub.id;
        self.subtitles.insert(id, sub);
        assert(self.view() =~= old(self).view().insert(id, v));
    }

    /// The subtitle stored under `id`, if any.
    pub fn get(&self, id: u64) -> (r: Option<&Subtitle<T>>)
        ensures
            match r {
                Some(s) => self.view().contains_key(id) && s@ == self.view()[id],
                None => !self.view().contains_key(id),
            },
    {
        self.subtitles.get(&id)
    }
}

/// What a stored subtitle reads as after `insert` of `sub`: `sub` under its
/// own id, and what was stored before under every other id.
pub proof fn law_read_after_insert<T>(
    before: Map<u64, SubtitleView<T>>,
    sub: SubtitleView<T>,
    id: u64,
)
    ensures
        before.insert(sub.id, sub).contains_key(id) <==> (id == sub.id || before.contains_key(id)),
        id == sub.id ==> before.insert(sub.id, sub)[id] == sub,
        id != sub.id ==> before.insert(sub.id, sub).contains_key(id) == before.contains_key(id)
            && before.insert(sub.id, sub)[id] == before[id],
{
}

/// A client's request for media of stored subtitles. `I` holds the image
/// options, `A` the audio options; both are handed on unread.
pub enum ProtocolRequest<I, A> {
    /// A still image of subtitle `id`, spanning to the end of `end_id`
    /// where that subtitle is stored.
    Thumbnail { id: u64, end_id: Option<u64>, image: I },
    /// The audio of subtitle `id`.
    Audio { id: u64, audio: A },
    /// The audio from the start of `start_id` to the end of `end_id`.
    AudioRange { start_id: u64, end_id: u64, audio: A },
}

/// What to extract for a request.
pub enum MediaPlan<T, I, A> {
    /// A still image for this subtitle.
    Thumbnail { id: u64, subtitle: Subtitle<T>, image: I },
    /// The audio of this subtitle.
    Audio { id: u64, subtitle: Subtitle<T>, audio: A },
    /// The audio between two times of one media file and audio track.
    AudioRange {
        start_id: u64,
        end_id: u64,
        start: T,
        end: T,
        media_path: String,
        aid: i64,
        audio: A,
    },
}

/// The view of a [`MediaPlan`].
pub enum PlanView<T, I, A> {
    Thumbnail { id: u64, subtitle: SubtitleView<T>, image: I },
    Audio { id: u64, subtitle: SubtitleView<T>, audio: A },
    AudioRange {
        start_id: u64,
        end_id: u64,
        start: T,
        end: T,
        media_path: Seq<char>,
        aid: i64,
        audio: A,
    },
}

impl<T, I, A> View for MediaPlan<T, I, A> {
    type V = PlanView<T, I, A>;

    open spec fn view(&self) -> PlanView<T, I, A> {
        match self {
            MediaPlan::Thumbnail { id, subtitle, image } => PlanView::Thumbnail {
                id: *id,
                subtitle: subtitle@,
                image: *image,
            },
            MediaPlan::Audio { id, subtitle, audio } => PlanView::Audio {
                id: *id,
                subtitle: subtitle@,
                audio: *audio,
            },
            MediaPlan::AudioRange { start_id, end_id, start, end, media_path, aid, audio } =>
                PlanView::AudioRange {
                start_id: *start_id,
                end_id: *end_id,
                start: *start,
                end: *end,
                media_path: media_path@,
                aid: *aid,
                audio: *audio,
            },
        }
    }
}

/// The plan for a request, given the stored subtitles: `None` where a
/// subtitle it needs is not stored.
///
/// - A thumbnail is of the subtitle `id`; where `end_id` is given and
///   stored, the image spans to that subtitle's end.
/// - Audio is of the subtitle `id`.
/// - An audio range runs from the start of `start_id` to the end of
///   `end_id`, in the media file and audio track of `start_id`.
pub open spec fn plan_spec<T, I, A>(
    req: ProtocolRequest<I, A>,
    store: Map<u64, SubtitleView<T>>,
) -> Option<PlanView<T, I, A>> {
    match req {
        ProtocolRequest::Thumbnail { id, end_id, image } => {
            if !store.contains_key(id) {
                None
            } else {
                let sub = store[id];
                let sub_end = match end_id {
                    Some(e) => if store.contains_key(e) {
                        store[e].sub_end
                    } else {
                        sub.sub_end
                    },
                    None => sub.sub_end,
                };
                Some(
                    PlanView::Thumbnail { id, subtitle: SubtitleView { sub_end, ..sub }, image },
                )
            }
        },
        ProtocolRequest::Audio { id, audio } => {
            if !store.contains_key(id) {
                None
            } else {
                Some(PlanView::Audio { id, subtitle: store[id], audio })
            }
        },
        ProtocolRequest::AudioRange { start_id, end_id, audio } => {
            if !store.contains_key(start_id) || !store.contains_key(end_id) {
                None
            } else {
                Some(
                    PlanView::AudioRange {
                        start_id,
                        end_id,
                        start: store[start_id].sub_start,
                        end: store[end_id].sub_end,
                        media_path: store[start_id].media_path,
                        aid: store[start_id].aid,
                        audio,
                    },
                )
            }
        },
    }
}

/// The view of an optional plan.
pub open spec fn opt_plan<T, I, A>(p: Option<MediaPlan<T, I, A>>) -> Option<PlanView<T, I, A>> {
    match p {
        Some(p) => Some(p@),
        None => None,
    }
}

/// Plans a request against the stored subtitles, as [`plan_spec`] says.
pub fn plan_request<T: Copy, I, A>(req: ProtocolRequest<I, A>, store: &SubtitleStore<T>) -> (p:
    Option<MediaPlan<T, I, A>>)
    ensures
        opt_plan(p) == plan_spec(req, store.view()),
{
    match req {
        ProtocolRequest::Thumbnail { id, end_id, image } => {
            let sub = match store.get(id) {
                Some(s) => s,
                None => return None,
            };
            let sub_end = match end_id {
                Some(e) => match store.get(e) {
                    Some(end_sub) => end_sub.sub_end,
                    None => sub.sub_end,
                },
                None => sub.sub_end,
            };
            let subtitle = copy_subtitle_with_end(sub, sub_end);
            Some(MediaPlan::Thumbnail { id, subtitle, image })
        },
        ProtocolRequest::Audio { id, audio } => {
            let sub = match store.get(id) {
                Some(s) => s,
                None => return None,
            };
            let subtitle = copy_subtitle_with_end(sub, sub.sub_end);
            Some(MediaPlan::Audio { id, subtitle, audio })
        },
        ProtocolRequest::AudioRange { start_id, end_id, audio } => {
            let start = match store.get(start_id) {
                Some(s) => s,
                None => return None,
            };
            let end = match store.get(end_id) {
                Some(s) => s,
                None => return None,
            };
            Some(
                MediaPlan::AudioRange {
                    start_id,
                    end_id,
                    start: start.sub_start,
                    end: end.sub_end,
                    media_path: start.media_path.clone(),
                    aid: start.aid,
                    audio,
                },
            )
        },
    }
}

impl<T, I, A> MediaPlan<T, I, A> {
    /// The `type` of the response to the request: `thumbnail`, `audio` or
    /// `audio_range`.
    pub fn kind(&self) -> (k: &'static str)
        ensures
            k@ == match self {
                MediaPlan::Thumbnail { .. } => "thumbnail"@,
                MediaPlan::Audio { .. } => "audio"@,
                MediaPlan::AudioRange { .. } => "audio_range"@,
            },
    {
        match self {
            MediaPlan::Thumbnail { .. } => "thumbnail",
            MediaPlan::Audio { .. } => "audio",
            MediaPlan::AudioRange { .. } => "audio_range",
        }
    }
}

/// Once a subtitle is stored, a request for its audio is planned on it,
/// and an audio range from it to itself spans its own start and end.
pub proof fn law_requests_find_stored_subtitle<T, I, A>(
    before: Map<u64, SubtitleView<T>>,
    sub: SubtitleView<T>,
    audio: A,
)
    ensures
        ({
            let store = before.insert(sub.id, sub);
            &&& plan_spec(ProtocolRequest::<I, A>::Audio { id: sub.id, audio }, store) == Some(
                PlanView::<T, I, A>::Audio { id: sub.id, subtitle: sub, audio },
            )
            &&& plan_spec(
                ProtocolRequest::<I, A>::AudioRange { start_id: sub.id, end_id: sub.id, audio },
                store,
            ) == Some(
                PlanView::<T, I, A>::AudioRange {
                    start_id: sub.id,
                    end_id: sub.id,
                    start: sub.sub_start,
                    end: sub.sub_end,
                    media_path: sub.media_path,
                    aid: sub.aid,
                    audio,
                },
            )
        }),
{
}

/// A request that names a subtitle that is not stored is answered with no
/// plan.
pub proof fn law_missing_subtitle_gives_no_plan<T, I, A>(
    store: Map<u64, SubtitleView<T>>,
    req: ProtocolRequest<I, A>,
)
    requires
        match req {
            ProtocolRequest::Thumbnail { id, .. } => !store.contains_key(id),
            ProtocolRequest::Audio { id, .. } => !store.contains_key(id),
            ProtocolRequest::AudioRange { start_id, end_id, .. } => !store.contains_key(start_id)
                || !store.contains_key(end_id),
        },
    ensures
        plan_spec(req, store) is None,
{
}

/// A plan takes what it needs from the stored subtitles unchanged: a
/// thumbnail or audio plan carries the stored subtitle of the requested id
/// (its text, start, media path and audio track), a thumbnail's end being
/// that of `end_id` where that is stored and its own otherwise; an audio
/// range runs from the start of `start_id` to the end of `end_id` in the
/// media file and audio track of `start_id`.
pub proof fn law_plan_copies_stored_subtitle<T, I, A>(
    req: ProtocolRequest<I, A>,
    store: Map<u64, SubtitleView<T>>,
)
    ensures
        match plan_spec(req, store) {
            Some(PlanView::Thumbnail { id, subtitle, .. }) => {
                &&& req matches ProtocolRequest::Thumbnail { id: rid, end_id, .. } && id == rid && {
                    let stored = store[id];
                    &&& store.contains_key(id)
                    &&& subtitle.id == stored.id
                    &&& subtitle.text == stored.text
                    &&& subtitle.sub_start == stored.sub_start
                    &&& subtitle.media_path == stored.media_path
                    &&& subtitle.aid == stored.aid
                    &&& subtitle.sub_end == (if end_id is Some && store.contains_key(end_id->0) {
                        store[end_id->0].sub_end
                    } else {
                        stored.sub_end
                    })
                }
            },
            Some(PlanView::Audio { id, subtitle, .. }) => {
                &&& req matches ProtocolRequest::Audio { id: rid, .. } && id == rid
                &&& store.contains_key(id)
                &&& subtitle == store[id]
            },
            Some(PlanView::AudioRange { start_id, end_id, start, end, media_path, aid, .. }) => {
                &&& req matches ProtocolRequest::AudioRange { start_id: s0, end_id: e0, .. } && s0
                    == start_id && e0 == end_id
                &&& store.contains_key(start_id) && store.contains_key(end_id)
                &&& start == store[start_id].sub_start
                &&& end == store[end_id].sub_end
                &&& media_path == store[start_id].media_path
                &&& aid == store[start_id].aid
            },
            None => true,
        },
{
}

} // verus!
