//! Per-session tasks: the values they exchange with the worker, and the two
//! kinds of session.

use crate::io::{Headers, HttpResponse, IoAction, IoEvent};
use crate::tasks::engine::{Engine, EngineOutput};
use crate::tasks::whep::{whep_input_post, whep_step, WhepServerTask};
use crate::tasks::whip::{whip_input_post, whip_step, WhipServerTask};
use std::collections::hash_map::DefaultHasher;
use std::collections::VecDeque;
use std::hash::{Hash, Hasher};
use vstd::prelude::*;
use vstd::std_specs::hash::DefaultHasherAdditionalSpecFns;
use vstd::string::{StrSliceExecFns, StringSliceAdditionalSpecFns};

pub mod engine;
pub mod whep;
pub mod whip;

verus! {

/// The two kinds of media that a session carries.
#[derive(Clone, Copy, Debug, PartialEq, Eq, Hash, Structural)]
pub enum MediaKind {
    Audio,
    Video,
}

/// The two ways to ask a sender for a keyframe.
#[derive(Clone, Copy, Debug, PartialEq, Eq, Structural)]
pub enum KeyframeRequestKind {
    Pli,
    Fir,
}

/// One RTP packet as the engine delivers it.
pub struct RtpData {
    /// Extended sequence number.
    pub seq_no: u64,
    /// Extended RTP time in the clock frequency of the codec.
    pub time: str0m::media::MediaTime,
    /// The parsed RTP header.
    pub header: str0m::rtp::RtpHeader,
    /// The payload type that `header` carries.
    pub payload_type: u8,
    /// The RTP payload, without the header.
    pub payload: Vec<u8>,
    /// When the packet was received, in nanoseconds since the epoch.
    pub timestamp: u64,
}

/// One RTP packet on its way from a publisher to the subscribers of a track.
pub struct TrackMedia {
    pub track_id: u64,
    /// Extended sequence number.
    pub seq_no: u64,
    /// Extended RTP time in the clock frequency of the codec.
    pub time: str0m::media::MediaTime,
    /// The parsed RTP header.
    pub header: str0m::rtp::RtpHeader,
    /// The payload type that `header` carries.
    pub payload_type: u8,
    /// The RTP payload, without the header.
    pub payload: Vec<u8>,
    /// When the packet was received, in nanoseconds since the epoch.
    pub timestamp: u64,
}

/// The packet `rtp` as media of track `track_id`.
pub open spec fn track_media(track_id: u64, rtp: RtpData) -> TrackMedia {
    TrackMedia {
        track_id,
        seq_no: rtp.seq_no,
        time: rtp.time,
        header: rtp.header,
        payload_type: rtp.payload_type,
        payload: rtp.payload,
        timestamp: rtp.timestamp,
    }
}

impl TrackMedia {
    /// The packet `rtp`, tagged with the track that carries it.
    pub fn from_raw(track_id: u64, rtp: RtpData) -> (media: TrackMedia)
        ensures
            media == track_media(track_id, rtp),
    {
        TrackMedia {
            track_id,
            seq_no: rtp.seq_no,
            time: rtp.time,
            header: rtp.header,
            payload_type: rtp.payload_type,
            payload: rtp.payload,
            timestamp: rtp.timestamp,
        }
    }
}

impl TrackMedia {
    /// A copy of this packet for one more receiver.
    pub fn duplicate(&self) -> (copy: TrackMedia)
        ensures
            same_media(copy, *self),
    {
        TrackMedia {
            track_id: self.track_id,
            seq_no: self.seq_no,
            time: self.time,
            header: engine::clone_header(&self.header),
            payload_type: self.payload_type,
            payload: self.payload.clone(),
            timestamp: self.timestamp,
        }
    }
}

/// Whether `a` and `b` are the same packet of the same track.
pub open spec fn same_media(a: TrackMedia, b: TrackMedia) -> bool {
    &&& a.track_id == b.track_id
    &&& a.seq_no == b.seq_no
    &&& a.time == b.time
    &&& a.header == b.header
    &&& a.payload_type == b.payload_type
    &&& a.payload@ == b.payload@
    &&& a.timestamp == b.timestamp
}

/// What the worker delivers to a session.
pub enum WebrtcTaskInput<'a> {
    Io(IoEvent<'a>),
    TrackMedia(TrackMedia),
    RequestKeyframeTrack { track_id: u64, kind: KeyframeRequestKind },
}

/// What a session hands to the worker.
#[allow(inconsistent_fields)]
pub enum WebrtcTaskOutput {
    Io(IoAction),
    TrackMedia(TrackMedia),
    TaskEnded,
    PublishTrack { track_id: u64 },
    SubscribeTrack { track_id: u64 },
    RequestKeyframeTrack { track_id: u64, kind: KeyframeRequestKind },
}

impl<'a> From<IoEvent<'a>> for WebrtcTaskInput<'a> {
    fn from(event: IoEvent<'a>) -> (input: WebrtcTaskInput<'a>) {
        WebrtcTaskInput::Io(event)
    }
}

impl<'a> vstd::std_specs::convert::FromSpecImpl<IoEvent<'a>> for WebrtcTaskInput<'a> {
    open spec fn obeys_from_spec() -> bool {
        true
    }

    open spec fn from_spec(event: IoEvent<'a>) -> WebrtcTaskInput<'a> {
        WebrtcTaskInput::Io(event)
    }
}

impl From<IoAction> for WebrtcTaskOutput {
    fn from(action: IoAction) -> (output: WebrtcTaskOutput) {
        WebrtcTaskOutput::Io(action)
    }
}

impl vstd::std_specs::convert::FromSpecImpl<IoAction> for WebrtcTaskOutput {
    open spec fn obeys_from_spec() -> bool {
        true
    }

    open spec fn from_spec(action: IoAction) -> WebrtcTaskOutput {
        WebrtcTaskOutput::Io(action)
    }
}

/// The payload type that the sessions take for audio; every other one is video.
pub const AUDIO_PAYLOAD_TYPE: u8 = 111;

/// The largest payload type that an RTP header can carry.
pub const MAX_PAYLOAD_TYPE: u8 = 127;

/// The largest RTP payload that a session hands to its engine; no datagram
/// carries more.
pub const MAX_RTP_PAYLOAD: usize = 1500;

/// What `<str as Hash>::hash` writes into a hasher for the text `text`.
pub uninterp spec fn str_hash_writes(text: Seq<char>) -> Seq<Seq<u8>>;

/// What `<str0m::media::MediaKind as Hash>::hash` writes into a hasher for `kind`.
pub uninterp spec fn media_kind_hash_writes(kind: MediaKind) -> Seq<Seq<u8>>;

/// `<str as Hash>::hash`: feeds `text` to the hasher. The writes depend on
/// the text alone.
#[verifier::external_body]
fn hash_str(state: &mut DefaultHasher, text: &str)
    ensures
        final(state)@ == old(state)@ + str_hash_writes(text@),
{
    text.hash(state);
}

/// `<str0m::media::MediaKind as Hash>::hash`: feeds the engine's name for
/// `kind` to the hasher. The writes depend on the kind alone.
#[verifier::external_body]
fn hash_media_kind(state: &mut DefaultHasher, kind: MediaKind)
    ensures
        final(state)@ == old(state)@ + media_kind_hash_writes(kind),
{
    match kind {
        MediaKind::Audio => str0m::media::MediaKind::Audio.hash(state),
        MediaKind::Video => str0m::media::MediaKind::Video.hash(state),
    }
}

/// The id of the track that carries media of kind `kind` in channel
/// `channel`: the default hasher's digest of the channel name followed by
/// the kind.
pub open spec fn track_id(channel: Seq<char>, kind: MediaKind) -> u64 {
    DefaultHasher::spec_finish(str_hash_writes(channel) + media_kind_hash_writes(kind))
}

/// The id of the track that carries media of kind `kind` in channel `channel`.
pub fn track_id_builder(channel: &str, kind: MediaKind) -> (id: u64)
    ensures
        id == track_id(channel@, kind),
{
    let mut hasher = DefaultHasher::new();
    hash_str(&mut hasher, channel);
    hash_media_kind(&mut hasher, kind);
    assert(hasher@ == str_hash_writes(channel@) + media_kind_hash_writes(kind));
    hasher.finish()
}

/// Track ids depend on the channel name and the media kind alone: two
/// sessions that name the same channel agree on the id of each of its tracks.
pub proof fn track_ids_agree(
    channel_a: Seq<char>,
    kind_a: MediaKind,
    channel_b: Seq<char>,
    kind_b: MediaKind,
)
    requires
        channel_a == channel_b,
        kind_a == kind_b,
    ensures
        track_id(channel_a, kind_a) == track_id(channel_b, kind_b),
{
}

/// The state of a session apart from its engine.
pub struct TaskCore {
    /// The engine's ICE username fragment.
    pub ice_ufrag: String,
    /// When the engine next wants a timeout, in nanoseconds since the epoch.
    pub timeout: Option<u64>,
    /// Outputs that wait to be popped, oldest first.
    pub outputs: VecDeque<WebrtcTaskOutput>,
    /// The audio media line, once the peer declared it.
    pub audio_mid: Option<str0m::media::Mid>,
    /// The video media line, once the peer declared it.
    pub video_mid: Option<str0m::media::Mid>,
    pub audio_track_id: u64,
    pub video_track_id: u64,
    /// Whether the session has handed out its `TaskEnded`.
    pub ended: bool,
}

/// The mathematical value of a `TaskCore`.
pub struct TaskView {
    pub ice_ufrag: Seq<char>,
    pub timeout: Option<u64>,
    pub outputs: Seq<WebrtcTaskOutput>,
    pub audio_mid: Option<str0m::media::Mid>,
    pub video_mid: Option<str0m::media::Mid>,
    pub audio_track_id: u64,
    pub video_track_id: u64,
    pub ended: bool,
}

impl View for TaskCore {
    type V = TaskView;

    open spec fn view(&self) -> TaskView {
        TaskView {
            ice_ufrag: self.ice_ufrag@,
            timeout: self.timeout,
            outputs: self.outputs@,
            audio_mid: self.audio_mid,
            video_mid: self.video_mid,
            audio_track_id: self.audio_track_id,
            video_track_id: self.video_track_id,
            ended: self.ended,
        }
    }
}

/// The header fields of a response that carries an SDP answer for the
/// session at `location`.
pub open spec fn sdp_headers(location: Seq<char>) -> Map<Seq<char>, Seq<char>> {
    Map::<Seq<char>, Seq<char>>::empty().insert("Content-Type"@, "application/sdp"@).insert(
        "Location"@,
        location,
    )
}

/// Whether `res` answers request `req_id` with the SDP answer `answer` for
/// the session at `location`.
pub open spec fn is_sdp_answer(
    res: HttpResponse,
    req_id: u64,
    location: Seq<char>,
    answer: Seq<u8>,
) -> bool {
    &&& res.req_id == req_id
    &&& res.status == 200
    &&& res.headers@ == sdp_headers(location)
    &&& res.body@ == answer
}

/// Whether `res` tells the sender of request `req_id` that its offer was refused.
pub open spec fn is_bad_request(res: HttpResponse, req_id: u64) -> bool {
    &&& res.req_id == req_id
    &&& res.status == 400
    &&& res.headers@ == Map::<Seq<char>, Seq<char>>::empty()
    &&& res.body@ == "Bad Request".spec_bytes()
}

/// The response that carries the SDP answer `answer` to request `req_id`.
pub fn sdp_answer(req_id: u64, location: &str, answer: Vec<u8>) -> (res: HttpResponse)
    ensures
        is_sdp_answer(res, req_id, location@, answer@),
{
    let mut headers = Headers::new();
    headers.insert("Content-Type".to_owned(), "application/sdp".to_owned());
    headers.insert("Location".to_owned(), location.to_owned());
    HttpResponse { req_id, status: 200, headers, body: answer }
}

/// The response that refuses the offer of request `req_id`.
pub fn bad_request(req_id: u64) -> (res: HttpResponse)
    ensures
        is_bad_request(res, req_id),
{
    HttpResponse {
        req_id,
        status: 400,
        headers: Headers::new(),
        body: "Bad Request".as_bytes_vec(),
    }
}

/// The number of HTTP responses among `outputs`.
pub open spec fn count_responses(outputs: Seq<WebrtcTaskOutput>) -> nat
    decreases outputs.len(),
{
    if outputs.len() == 0 {
        0
    } else {
        count_responses(outputs.drop_last()) + if is_response(outputs.last()) {
            1nat
        } else {
            0nat
        }
    }
}

/// Whether `output` is an HTTP response.
pub open spec fn is_response(output: WebrtcTaskOutput) -> bool {
    output matches WebrtcTaskOutput::Io(IoAction::HttpResponse(_))
}

impl TaskCore {
    /// The state of a session that was just set up: its answer waits to be
    /// popped, and nothing else has happened.
    pub open spec fn is_fresh(
        view: TaskView,
        response: HttpResponse,
        channel: Seq<char>,
    ) -> bool {
        &&& view.timeout is None
        &&& view.outputs == seq![WebrtcTaskOutput::Io(IoAction::HttpResponse(response))]
        &&& view.audio_mid is None
        &&& view.video_mid is None
        &&& view.audio_track_id == track_id(channel, MediaKind::Audio)
        &&& view.video_track_id == track_id(channel, MediaKind::Video)
        &&& !view.ended
    }

    pub(crate) fn fresh(ice_ufrag: String, response: HttpResponse, channel: &str) -> (core:
        TaskCore)
        ensures
            Self::is_fresh(core@, response, channel@),
            core@.ice_ufrag == ice_ufrag@,
    {
        let mut outputs = VecDeque::new();
        outputs.push_back(WebrtcTaskOutput::Io(IoAction::HttpResponse(response)));
        TaskCore {
            ice_ufrag,
            timeout: None,
            outputs,
            audio_mid: None,
            video_mid: None,
            audio_track_id: track_id_builder(channel, MediaKind::Audio),
            video_track_id: track_id_builder(channel, MediaKind::Video),
            ended: false,
        }
    }

    /// Whether a timeout is scheduled and has come at `now`.
    pub open spec fn spec_due(view: TaskView, now: u64) -> bool {
        &&& !view.ended
        &&& view.timeout matches Some(at)
        &&& now >= at
    }

    /// Whether a timeout is scheduled and has come at `now`.
    pub fn due(&self, now: u64) -> (due: bool)
        ensures
            due == Self::spec_due(self@, now),
    {
        match self.timeout {
            Some(at) => !self.ended && now >= at,
            None => false,
        }
    }

    /// Whether a pop at `now` has to ask the engine: the session lives,
    /// nothing waits in the queue and no timeout lies ahead.
    pub open spec fn spec_must_poll(view: TaskView, now: u64) -> bool {
        &&& !view.ended
        &&& view.outputs.len() == 0
        &&& (view.timeout matches Some(at) ==> at <= now)
    }
}

/// What a session does with one output of its engine, a publisher's session
/// where `publisher` holds and a subscriber's where it does not.
pub open spec fn step(publisher: bool, state: TaskView, out: EngineOutput) -> (
    TaskView,
    Option<WebrtcTaskOutput>,
) {
    if publisher {
        whip_step(state, out)
    } else {
        whep_step(state, out)
    }
}

/// What `tick` at `now` does to a session in state `before`: where a timeout
/// has come it goes to the engine and the schedule is cleared; otherwise
/// nothing changes.
pub open spec fn tick_post(
    before: TaskView,
    now: u64,
    after: TaskView,
    more: bool,
    engine_kept: bool,
) -> bool {
    &&& more == TaskCore::spec_due(before, now)
    &&& more ==> after == (TaskView { timeout: None, ..before })
    &&& !more ==> after == before && engine_kept
}

/// What `pop_action` at `now` does to a session in state `before`. An ended
/// session hands out nothing. Otherwise the oldest queued output comes
/// first. With an empty queue and a timeout still ahead nothing happens.
/// Otherwise the engine is polled: either it has nothing, or the session
/// takes the step that belongs to what the engine handed back.
pub open spec fn pop_post(
    publisher: bool,
    before: TaskView,
    now: u64,
    after: TaskView,
    output: Option<WebrtcTaskOutput>,
    engine_kept: bool,
) -> bool {
    if before.ended {
        output is None && after == before && engine_kept
    } else if before.outputs.len() > 0 {
        &&& output == Some(before.outputs[0])
        &&& after == (TaskView { outputs: before.outputs.skip(1), ..before })
        &&& engine_kept
    } else if !TaskCore::spec_must_poll(before, now) {
        output is None && after == before && engine_kept
    } else {
        ||| output is None && after == before
        ||| exists|out: EngineOutput| #[trigger]
            step(publisher, before, out) == (after, output)
    }
}

/// What the worker asks of a session of either kind.
pub trait WebrtcTask {
    /// The session's state apart from its engine.
    spec fn task_view(&self) -> TaskView;

    /// Whether this is a publisher's session.
    spec fn publisher(&self) -> bool;

    /// The session's engine.
    spec fn task_engine(&self) -> Engine;

    /// The engine's ICE username fragment.
    fn ufrag(&self) -> (ufrag: String)
        ensures
            ufrag@ == self.task_view().ice_ufrag,
    ;

    /// Lets time pass; says whether the session may have more to pop.
    fn tick(&mut self, now: u64) -> (more: bool)
        ensures
            final(self).task_engine().epoch() == old(self).task_engine().epoch(),
            final(self).publisher() == old(self).publisher(),
            tick_post(
                old(self).task_view(),
                now,
                final(self).task_view(),
                more,
                final(self).task_engine() == old(self).task_engine(),
            ),
    ;

    /// Takes one input; says whether the session may have more to pop.
    fn input<'b>(&mut self, now: u64, event: WebrtcTaskInput<'b>) -> (more: bool)
        ensures
            final(self).task_engine().epoch() == old(self).task_engine().epoch(),
            final(self).publisher() == old(self).publisher(),
            old(self).publisher() ==> whip_input_post(
                old(self).task_view(),
                event,
                final(self).task_view(),
                more,
                final(self).task_engine() == old(self).task_engine(),
            ),
            !old(self).publisher() ==> whep_input_post(
                old(self).task_view(),
                event,
                final(self).task_view(),
                more,
                final(self).task_engine() == old(self).task_engine(),
            ),
    ;

    /// The session's next output, if it has one.
    fn pop_action(&mut self, now: u64) -> (output: Option<WebrtcTaskOutput>)
        ensures
            final(self).task_engine().epoch() == old(self).task_engine().epoch(),
            final(self).publisher() == old(self).publisher(),
            pop_post(
                old(self).publisher(),
                old(self).task_view(),
                now,
                final(self).task_view(),
                output,
                final(self).task_engine() == old(self).task_engine(),
            ),
    ;
}

impl WebrtcTask for WhipServerTask {
    open spec fn task_view(&self) -> TaskView {
        self@
    }

    open spec fn publisher(&self) -> bool {
        true
    }

    open spec fn task_engine(&self) -> Engine {
        self.engine()
    }

    fn ufrag(&self) -> (ufrag: String) {
        WhipServerTask::ufrag(self)
    }

    fn tick(&mut self, now: u64) -> (more: bool) {
        WhipServerTask::tick(self, now)
    }

    fn input<'b>(&mut self, now: u64, event: WebrtcTaskInput<'b>) -> (more: bool) {
        WhipServerTask::input(self, now, event)
    }

    fn pop_action(&mut self, now: u64) -> (output: Option<WebrtcTaskOutput>) {
        WhipServerTask::pop_action(self, now)
    }
}

impl WebrtcTask for WhepServerTask {
    open spec fn task_view(&self) -> TaskView {
        self@
    }

    open spec fn publisher(&self) -> bool {
        false
    }

    open spec fn task_engine(&self) -> Engine {
        self.engine()
    }

    fn ufrag(&self) -> (ufrag: String) {
        WhepServerTask::ufrag(self)
    }

    fn tick(&mut self, now: u64) -> (more: bool) {
        WhepServerTask::tick(self, now)
    }

    fn input<'b>(&mut self, now: u64, event: WebrtcTaskInput<'b>) -> (more: bool) {
        WhepServerTask::input(self, now, event)
    }

    fn pop_action(&mut self, now: u64) -> (output: Option<WebrtcTaskOutput>) {
        WhepServerTask::pop_action(self, now)
    }
}

impl WebrtcTask for ComposeTask {
    open spec fn task_view(&self) -> TaskView {
        self@
    }

    open spec fn publisher(&self) -> bool {
        self.is_publisher()
    }

    open spec fn task_engine(&self) -> Engine {
        self.engine()
    }

    fn ufrag(&self) -> (ufrag: String) {
        ComposeTask::ufrag(self)
    }

    fn tick(&mut self, now: u64) -> (more: bool) {
        ComposeTask::tick(self, now)
    }

    fn input<'b>(&mut self, now: u64, event: WebrtcTaskInput<'b>) -> (more: bool) {
        ComposeTask::input(self, now, event)
    }

    fn pop_action(&mut self, now: u64) -> (output: Option<WebrtcTaskOutput>) {
        ComposeTask::pop_action(self, now)
    }
}

/// A session of either kind.
pub enum ComposeTask {
    Whip(WhipServerTask),
    Whep(WhepServerTask),
}

impl View for ComposeTask {
    type V = TaskView;

    open spec fn view(&self) -> TaskView {
        match self {
            ComposeTask::Whip(task) => task@,
            ComposeTask::Whep(task) => task@,
        }
    }
}

impl ComposeTask {
    /// Whether this is a publisher's session.
    pub open spec fn is_publisher(&self) -> bool {
        self is Whip
    }

    /// The session's engine.
    pub open spec fn engine(&self) -> Engine {
        match self {
            ComposeTask::Whip(task) => task.engine(),
            ComposeTask::Whep(task) => task.engine(),
        }
    }

    /// The session's state apart from its engine.
    pub fn state(&self) -> (core: &TaskCore)
        ensures
            core@ == self@,
    {
        match self {
            ComposeTask::Whip(task) => task.state(),
            ComposeTask::Whep(task) => task.state(),
        }
    }

    /// The ICE username fragment of the session's engine.
    pub fn ufrag(&self) -> (ufrag: String)
        ensures
            ufrag@ == self@.ice_ufrag,
    {
        match self {
            ComposeTask::Whip(task) => task.ufrag(),
            ComposeTask::Whep(task) => task.ufrag(),
        }
    }

    /// Lets time pass: a timeout that has come at `now` goes to the engine.
    /// Says whether it did.
    pub fn tick(&mut self, now: u64) -> (more: bool)
        ensures
            final(self).engine().epoch() == old(self).engine().epoch(),
            final(self).is_publisher() == old(self).is_publisher(),
            tick_post(old(self)@, now, final(self)@, more, final(self).engine() == old(self).engine()),
    {
        match self {
            ComposeTask::Whip(task) => task.tick(now),
            ComposeTask::Whep(task) => task.tick(now),
        }
    }

    /// Takes one input at `now`. Says whether the session may have more to pop.
    pub fn input<'b>(&mut self, now: u64, event: WebrtcTaskInput<'b>) -> (more: bool)
        ensures
            final(self).engine().epoch() == old(self).engine().epoch(),
            final(self).is_publisher() == old(self).is_publisher(),
            old(self).is_publisher() ==> whip_input_post(
                old(self)@,
                event,
                final(self)@,
                more,
                final(self).engine() == old(self).engine(),
            ),
            !old(self).is_publisher() ==> whep_input_post(
                old(self)@,
                event,
                final(self)@,
                more,
                final(self).engine() == old(self).engine(),
            ),
    {
        match self {
            ComposeTask::Whip(task) => task.input(now, event),
            ComposeTask::Whep(task) => task.input(now, event),
        }
    }

    /// Takes one output of the engine, as `pop_action` does with what a poll
    /// hands back.
    pub fn dispatch(&mut self, out: EngineOutput) -> (output: Option<WebrtcTaskOutput>)
        ensures
            final(self).is_publisher() == old(self).is_publisher(),
            final(self).engine() == old(self).engine(),
            (final(self)@, output) == step(old(self).is_publisher(), old(self)@, out),
    {
        match self {
            ComposeTask::Whip(task) => task.dispatch(out),
            ComposeTask::Whep(task) => task.dispatch(out),
        }
    }

    /// The session's next output at `now`, if it has one: the oldest queued
    /// output, else what the session makes of the engine's next output.
    pub fn pop_action(&mut self, now: u64) -> (output: Option<WebrtcTaskOutput>)
        ensures
            final(self).engine().epoch() == old(self).engine().epoch(),
            final(self).is_publisher() == old(self).is_publisher(),
            pop_post(
                old(self).is_publisher(),
                old(self)@,
                now,
                final(self)@,
                output,
                final(self).engine() == old(self).engine(),
            ),
    {
        match self {
            ComposeTask::Whip(task) => task.pop_action(now),
            ComposeTask::Whep(task) => task.pop_action(now),
        }
    }
}

/// What `pop_action` does, whatever becomes of the engine.
pub open spec fn popped(
    publisher: bool,
    before: TaskView,
    now: u64,
    after: TaskView,
    output: Option<WebrtcTaskOutput>,
) -> bool {
    pop_post(publisher, before, now, after, output, true) || pop_post(
        publisher,
        before,
        now,
        after,
        output,
        false,
    )
}

/// Whether a session goes through the states `states` as it hands out
/// `outputs`, one with each of as many pops at `now`.
pub open spec fn popped_through(
    publisher: bool,
    now: u64,
    states: Seq<TaskView>,
    outputs: Seq<WebrtcTaskOutput>,
) -> bool {
    &&& states.len() == outputs.len() + 1
    &&& forall|i: int|
        0 <= i < outputs.len() ==> popped(
            publisher,
            states[i],
            now,
            states[i + 1],
            Some(#[trigger] outputs[i]),
        )
}

/// The most outputs that one drain takes from a session before the worker
/// moves on to its next piece of work.
pub const DRAIN_LIMIT: usize = 65536;

/// Whether draining a session in state `before` at `now` gives exactly
/// `outputs` and leaves it in state `after`. Every pop but the last hands
/// out one of `outputs`, in their order. The drain ends in one of two ways
/// only: with a last pop that hands out nothing, or, cut short before such
/// a pop, with `DRAIN_LIMIT` outputs taken.
pub open spec fn session_drained(
    publisher: bool,
    before: TaskView,
    now: u64,
    outputs: Seq<WebrtcTaskOutput>,
    after: TaskView,
) -> bool {
    exists|states: Seq<TaskView>| #[trigger]
        popped_through(publisher, now, states, outputs) && states[0] == before && ((after
            == states.last() && outputs.len() == DRAIN_LIMIT) || popped(
            publisher,
            states.last(),
            now,
            after,
            None,
        ))
}

/// Whether `output` tells the worker of a published or subscribed track.
pub open spec fn is_track_notice(output: WebrtcTaskOutput) -> bool {
    output is PublishTrack || output is SubscribeTrack
}

/// Whether only track notices wait in the queue of a session in state
/// `state`. This holds of every session once its HTTP response is out.
pub open spec fn task_ok(state: TaskView) -> bool {
    forall|i: int| 0 <= i < state.outputs.len() ==> is_track_notice(#[trigger] state.outputs[i])
}

/// What one step tells of a session whose queue holds only track notices:
/// the queue stays so, the username fragment stays, no HTTP response comes
/// out, and `TaskEnded` comes out exactly when the session ends with this
/// step.
pub proof fn lemma_step_keeps_task_ok(publisher: bool, before: TaskView, out: EngineOutput)
    requires
        task_ok(before),
    ensures
        task_ok(step(publisher, before, out).0),
        step(publisher, before, out).0.ice_ufrag == before.ice_ufrag,
        step(publisher, before, out).1 matches Some(o) ==> !is_response(o),
        step(publisher, before, out).1 == Some(WebrtcTaskOutput::TaskEnded) <==> step(
            publisher,
            before,
            out,
        ).0.ended && !before.ended,
        before.ended ==> step(publisher, before, out).0.ended,
{
    let after = step(publisher, before, out).0;
    if publisher {
        assert(whip_step(before, out).0 == after);
    } else {
        assert(whep_step(before, out).0 == after);
    }
    assert forall|i: int| 0 <= i < after.outputs.len() implies is_track_notice(
        #[trigger] after.outputs[i],
    ) by {
        if i < before.outputs.len() {
            assert(is_track_notice(before.outputs[i]));
        }
    }
}

/// What a pop tells of a session whose queue holds only track notices: the
/// queue stays so, the username fragment stays, no HTTP response comes out,
/// and `TaskEnded` comes out exactly when the session ends with this pop.
pub proof fn lemma_pop_keeps_task_ok(
    publisher: bool,
    before: TaskView,
    now: u64,
    after: TaskView,
    output: Option<WebrtcTaskOutput>,
    engine_kept: bool,
)
    requires
        task_ok(before),
        pop_post(publisher, before, now, after, output, engine_kept),
    ensures
        task_ok(after),
        after.ice_ufrag == before.ice_ufrag,
        output matches Some(o) ==> !is_response(o),
        output == Some(WebrtcTaskOutput::TaskEnded) <==> after.ended && !before.ended,
        before.ended ==> after.ended && output is None,
{
    if before.ended {
    } else if before.outputs.len() > 0 {
        assert(is_track_notice(before.outputs[0]));
        assert forall|i: int| 0 <= i < after.outputs.len() implies is_track_notice(
            #[trigger] after.outputs[i],
        ) by {
            assert(after.outputs[i] == before.outputs[i + 1]);
        }
    } else if !TaskCore::spec_must_poll(before, now) {
    } else {
        if output is None && after == before {
        } else {
            let out = choose|out: EngineOutput| #[trigger]
                step(publisher, before, out) == (after, output);
            lemma_step_keeps_task_ok(publisher, before, out);
        }
    }
}

/// What a pop tells of a session whose queue holds only track notices,
/// whatever becomes of the engine.
pub proof fn lemma_popped_keeps_task_ok(
    publisher: bool,
    before: TaskView,
    now: u64,
    after: TaskView,
    output: Option<WebrtcTaskOutput>,
)
    requires
        task_ok(before),
        popped(publisher, before, now, after, output),
    ensures
        task_ok(after),
        after.ice_ufrag == before.ice_ufrag,
        output matches Some(o) ==> !is_response(o),
        output == Some(WebrtcTaskOutput::TaskEnded) <==> after.ended && !before.ended,
        before.ended ==> after.ended && output is None,
{
    if pop_post(publisher, before, now, after, output, true) {
        lemma_pop_keeps_task_ok(publisher, before, now, after, output, true);
    } else {
        lemma_pop_keeps_task_ok(publisher, before, now, after, output, false);
    }
}

/// In the pops of a session whose queue holds only track notices, every
/// state on the way has such a queue, and every pop that hands something
/// out finds the session alive.
pub proof fn lemma_popped_through(
    publisher: bool,
    now: u64,
    states: Seq<TaskView>,
    outputs: Seq<WebrtcTaskOutput>,
    k: int,
)
    requires
        task_ok(states[0]),
        popped_through(publisher, now, states, outputs),
        0 <= k <= outputs.len(),
    ensures
        task_ok(states[k]),
        states[k].ice_ufrag == states[0].ice_ufrag,
        k > 0 ==> !states[k - 1].ended && !is_response(outputs[k - 1]) && (states[k].ended
            <==> outputs[k - 1] == WebrtcTaskOutput::TaskEnded),
    decreases k,
{
    if k > 0 {
        lemma_popped_through(publisher, now, states, outputs, k - 1);
        assert(popped(publisher, states[k - 1], now, states[k], Some(outputs[k - 1])));
        lemma_popped_keeps_task_ok(
            publisher,
            states[k - 1],
            now,
            states[k],
            Some(outputs[k - 1]),
        );
    }
}

/// In the pops of a session whose queue holds only track notices,
/// `TaskEnded` comes last or not at all, and after it nothing is heard of
/// the session; an ended session hands out nothing; and no HTTP response
/// comes out.
pub proof fn task_ended_comes_last(
    publisher: bool,
    now: u64,
    states: Seq<TaskView>,
    outputs: Seq<WebrtcTaskOutput>,
)
    requires
        task_ok(states[0]),
        popped_through(publisher, now, states, outputs),
    ensures
        forall|i: int|
            0 <= i < outputs.len() && #[trigger] outputs[i] == WebrtcTaskOutput::TaskEnded ==> i
                == outputs.len() - 1,
        forall|i: int| 0 <= i < outputs.len() ==> !is_response(#[trigger] outputs[i]),
        states[0].ended ==> outputs.len() == 0,
        outputs.len() > 0 ==> (states.last().ended <==> outputs.last()
            == WebrtcTaskOutput::TaskEnded),
        task_ok(states.last()),
        states.last().ice_ufrag == states[0].ice_ufrag,
{
    assert forall|i: int|
        0 <= i < outputs.len() && #[trigger] outputs[i] == WebrtcTaskOutput::TaskEnded implies i
        == outputs.len() - 1 by {
        lemma_popped_through(publisher, now, states, outputs, i + 1);
        if i + 1 < outputs.len() {
            lemma_popped_through(publisher, now, states, outputs, i + 2);
        }
    }
    assert forall|i: int| 0 <= i < outputs.len() implies !is_response(#[trigger] outputs[i]) by {
        lemma_popped_through(publisher, now, states, outputs, i + 1);
    }
    if outputs.len() > 0 {
        lemma_popped_through(publisher, now, states, outputs, 1);
    }
    lemma_popped_through(publisher, now, states, outputs, outputs.len() as int);
}

/// The state of a session in state `state` once `count` outputs were popped
/// from its queue.
pub open spec fn queue_popped(state: TaskView, count: int) -> TaskView {
    TaskView { outputs: state.outputs.skip(count), ..state }
}

/// The pops of a live session start with what waits in its queue: as long
/// as the queue lasts, each pop hands out the output at its head and takes
/// it from the queue, and nothing else changes.
pub proof fn lemma_queue_comes_first(
    publisher: bool,
    now: u64,
    states: Seq<TaskView>,
    outputs: Seq<WebrtcTaskOutput>,
    count: int,
)
    requires
        popped_through(publisher, now, states, outputs),
        !states[0].ended,
        0 <= count <= states[0].outputs.len(),
        count <= outputs.len(),
    ensures
        states[count] == queue_popped(states[0], count),
        forall|j: int| 0 <= j < count ==> #[trigger] outputs[j] == states[0].outputs[j],
    decreases count,
{
    if count == 0 {
        assert(states[0].outputs.skip(0) =~= states[0].outputs);
    } else {
        lemma_queue_comes_first(publisher, now, states, outputs, count - 1);
        let earlier = states[count - 1];
        assert(popped(publisher, earlier, now, states[count], Some(outputs[count - 1])));
        assert(earlier.outputs.len() > 0);
        assert(earlier.outputs[0] == states[0].outputs[count - 1]);
        assert(earlier.outputs.skip(1) =~= states[0].outputs.skip(count));
    }
}

/// A drain takes what waits: the outputs of a drain of a live session begin
/// with the outputs that wait in its queue, all of them or, of a queue longer
/// than the drain limit, the first `DRAIN_LIMIT`.
pub proof fn drain_takes_the_queue(
    publisher: bool,
    before: TaskView,
    now: u64,
    outputs: Seq<WebrtcTaskOutput>,
    after: TaskView,
)
    requires
        !before.ended,
        session_drained(publisher, before, now, outputs, after),
    ensures
        before.outputs.len() <= DRAIN_LIMIT ==> outputs.len() >= before.outputs.len(),
        outputs.len() >= before.outputs.len() || outputs.len() == DRAIN_LIMIT,
        forall|j: int|
            0 <= j < before.outputs.len() && j < outputs.len() ==> #[trigger] outputs[j]
                == before.outputs[j],
{
    let states = choose|states: Seq<TaskView>| #[trigger]
        popped_through(publisher, now, states, outputs) && states[0] == before && ((after
            == states.last() && outputs.len() == DRAIN_LIMIT) || popped(
            publisher,
            states.last(),
            now,
            after,
            None,
        ));
    let count = if outputs.len() <= before.outputs.len() {
        outputs.len() as int
    } else {
        before.outputs.len() as int
    };
    lemma_queue_comes_first(publisher, now, states, outputs, count);
    if outputs.len() < before.outputs.len() && outputs.len() != DRAIN_LIMIT {
        let last = states.last();
        assert(last == queue_popped(before, outputs.len() as int));
        assert(last.outputs.len() > 0);
        assert(popped(publisher, last, now, after, None));
        assert(false);
    }
}

/// The HTTP responses in a queue are the one at its head, if it is one, and
/// those in the rest.
pub proof fn lemma_count_responses_skip(outputs: Seq<WebrtcTaskOutput>)
    requires
        outputs.len() > 0,
    ensures
        count_responses(outputs) == count_responses(outputs.skip(1)) + if is_response(
            outputs[0],
        ) {
            1nat
        } else {
            0nat
        },
    decreases outputs.len(),
{
    if outputs.len() == 1 {
        assert(outputs.drop_last() =~= Seq::<WebrtcTaskOutput>::empty());
        assert(outputs.skip(1) =~= Seq::<WebrtcTaskOutput>::empty());
        assert(outputs.last() == outputs[0]);
    } else {
        let front = outputs.drop_last();
        lemma_count_responses_skip(front);
        assert(front.skip(1) =~= outputs.skip(1).drop_last());
        assert(outputs.skip(1).last() == outputs.last());
        assert(front[0] == outputs[0]);
    }
}

/// One step of a session puts no HTTP response into the queue and hands
/// none out.
pub proof fn lemma_step_makes_no_response(publisher: bool, before: TaskView, out: EngineOutput)
    ensures
        count_responses(step(publisher, before, out).0.outputs) == count_responses(
            before.outputs,
        ),
        step(publisher, before, out).1 matches Some(output) ==> !is_response(output),
{
    let after = step(publisher, before, out).0;
    if publisher {
        assert(whip_step(before, out).0 == after);
    } else {
        assert(whep_step(before, out).0 == after);
    }
    if after.outputs != before.outputs {
        let audio = if publisher {
            WebrtcTaskOutput::PublishTrack { track_id: before.audio_track_id }
        } else {
            WebrtcTaskOutput::SubscribeTrack { track_id: before.audio_track_id }
        };
        let video = if publisher {
            WebrtcTaskOutput::PublishTrack { track_id: before.video_track_id }
        } else {
            WebrtcTaskOutput::SubscribeTrack { track_id: before.video_track_id }
        };
        assert(after.outputs == before.outputs.push(audio).push(video));
        lemma_count_responses_push(before.outputs, audio);
        lemma_count_responses_push(before.outputs.push(audio), video);
    }
}

/// The HTTP responses in a queue that has grown by one output are those
/// that were in it, and the new output if it is one.
pub proof fn lemma_count_responses_push(outputs: Seq<WebrtcTaskOutput>, output: WebrtcTaskOutput)
    ensures
        count_responses(outputs.push(output)) == count_responses(outputs) + if is_response(
            output,
        ) {
            1nat
        } else {
            0nat
        },
{
    assert(outputs.push(output).drop_last() =~= outputs);
    assert(outputs.push(output).last() == output);
}

/// An HTTP response is handed out exactly once: whatever a pop does, the
/// responses that are still in the queue and the one that the pop hands
/// out, if it hands one out, are the responses that were in the queue
/// before. A session starts with its one response in the queue, and nothing
/// but a pop takes an output from the queue or hands one out.
pub proof fn response_is_popped_once(
    publisher: bool,
    before: TaskView,
    now: u64,
    after: TaskView,
    output: Option<WebrtcTaskOutput>,
    engine_kept: bool,
)
    requires
        pop_post(publisher, before, now, after, output, engine_kept),
    ensures
        count_responses(before.outputs) == count_responses(after.outputs) + if output matches Some(
            o,
        ) && is_response(o) {
            1nat
        } else {
            0nat
        },
{
    if before.ended {
    } else if before.outputs.len() > 0 {
        lemma_count_responses_skip(before.outputs);
    } else if !TaskCore::spec_must_poll(before, now) {
    } else if output is None && after == before {
    } else {
        let out = choose|out: EngineOutput| #[trigger]
            step(publisher, before, out) == (after, output);
        lemma_step_makes_no_response(publisher, before, out);
    }
}

/// A session that was just set up holds exactly one HTTP response.
pub proof fn fresh_session_holds_one_response(
    view: TaskView,
    response: HttpResponse,
    channel: Seq<char>,
)
    requires
        TaskCore::is_fresh(view, response, channel),
    ensures
        count_responses(view.outputs) == 1,
{
    assert(view.outputs.drop_last() =~= Seq::<WebrtcTaskOutput>::empty());
    assert(is_response(view.outputs.last()));
    assert(count_responses(view.outputs.drop_last()) == 0);
}

/// Nothing is heard of a session once it has handed out `TaskEnded`: a
/// session ends exactly when it hands out `TaskEnded`, and an ended session
/// neither pops nor takes a step, and stays ended.
pub proof fn ended_session_is_silent(
    publisher: bool,
    before: TaskView,
    now: u64,
    after: TaskView,
    output: Option<WebrtcTaskOutput>,
    engine_kept: bool,
    out: EngineOutput,
)
    requires
        pop_post(publisher, before, now, after, output, engine_kept),
    ensures
        before.ended ==> output is None && after == before && engine_kept,
        before.ended ==> step(publisher, before, out) == (before, None::<WebrtcTaskOutput>),
        step(publisher, before, out).1 == Some(WebrtcTaskOutput::TaskEnded) ==> step(
            publisher,
            before,
            out,
        ).0.ended,
{
    if publisher {
        assert(whip_step(before, out) == step(publisher, before, out));
    } else {
        assert(whep_step(before, out) == step(publisher, before, out));
    }
}

/// A subscriber's session drops media whose media line the peer has not
/// declared yet: nothing of the session changes, nothing is queued, and the
/// engine is not touched.
pub proof fn media_without_mid_is_dropped(
    before: TaskView,
    media: TrackMedia,
    after: TaskView,
    more: bool,
    engine_kept: bool,
)
    requires
        whep_input_post(before, WebrtcTaskInput::TrackMedia(media), after, more, engine_kept),
        crate::tasks::whep::forward_mid(before, media.payload_type) is None,
    ensures
        after == before,
        engine_kept,
{
}

} // verus!
