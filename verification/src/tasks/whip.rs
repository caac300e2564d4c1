//! The publisher's session: takes media in from one peer and hands it to the
//! worker for the bus.

use crate::http::{get_http_auth, http_auth};
use crate::io::{HttpRequest, HttpResponse, IoAction, IoEvent, NetAddr};
use crate::tasks::engine::{
    accept_offer, add_local_candidate, build_engine, enable_twcc_feedback, handle_receive,
    handle_timeout, local_ufrag, request_keyframe, Certificate, Engine, EngineOutput, IceState,
};
use crate::tasks::{
    bad_request, is_bad_request, is_sdp_answer, pop_post, sdp_answer, step, tick_post, track_media,
    MediaKind, TaskCore, TaskView, TrackMedia, WebrtcTaskInput, WebrtcTaskOutput,
    AUDIO_PAYLOAD_TYPE,
};
use vstd::prelude::*;

verus! {

/// Where the answer to a publisher's offer says that the session lives.
pub open spec fn whip_location() -> Seq<char> {
    "/whip/endpoint/1234"@
}

/// What a publisher's session does with one output of its engine: the state
/// that follows `state`, and what the session hands to the worker. A session
/// that has ended does nothing.
pub open spec fn whip_step(state: TaskView, out: EngineOutput) -> (
    TaskView,
    Option<WebrtcTaskOutput>,
) {
    if state.ended {
        (state, None)
    } else {
        whip_live_step(state, out)
    }
}

/// What a publisher's session that has not ended does with one output of its
/// engine.
pub open spec fn whip_live_step(state: TaskView, out: EngineOutput) -> (
    TaskView,
    Option<WebrtcTaskOutput>,
) {
    match out {
        EngineOutput::Timeout(at) => (TaskView { timeout: Some(at), ..state }, None),
        EngineOutput::Transmit { from, to, buf } => (
            state,
            Some(WebrtcTaskOutput::Io(IoAction::UdpSocketSend { from, to, buf })),
        ),
        EngineOutput::Connected => (
            TaskView {
                outputs: state.outputs.push(
                    WebrtcTaskOutput::PublishTrack { track_id: state.audio_track_id },
                ).push(WebrtcTaskOutput::PublishTrack { track_id: state.video_track_id }),
                ..state
            },
            None,
        ),
        EngineOutput::MediaAdded { mid, kind } => (
            if kind == MediaKind::Audio {
                TaskView { audio_mid: Some(mid), ..state }
            } else {
                TaskView { video_mid: Some(mid), ..state }
            },
            None,
        ),
        EngineOutput::IceConnectionStateChange(ice) => if ice == IceState::Disconnected {
            (TaskView { ended: true, ..state }, Some(WebrtcTaskOutput::TaskEnded))
        } else {
            (state, None)
        },
        EngineOutput::RtpPacket(rtp) => (
            state,
            Some(
                WebrtcTaskOutput::TrackMedia(
                    track_media(
                        if rtp.payload_type == AUDIO_PAYLOAD_TYPE {
                            state.audio_track_id
                        } else {
                            state.video_track_id
                        },
                        rtp,
                    ),
                ),
            ),
        ),
        EngineOutput::KeyframeRequest { .. } => (state, None),
        EngineOutput::Other => (state, None),
    }
}

impl TaskCore {
    /// Takes one output of a publisher's engine.
    pub fn whip_dispatch(&mut self, out: EngineOutput) -> (output: Option<WebrtcTaskOutput>)
        ensures
            final(self)@ == whip_step(old(self)@, out).0,
            output == whip_step(old(self)@, out).1,
    {
        if self.ended {
            return None;
        }
        match out {
            EngineOutput::Timeout(at) => {
                self.timeout = Some(at);
                None
            },
            EngineOutput::Transmit { from, to, buf } => Some(
                WebrtcTaskOutput::Io(IoAction::UdpSocketSend { from, to, buf }),
            ),
            EngineOutput::Connected => {
                self.outputs.push_back(
                    WebrtcTaskOutput::PublishTrack { track_id: self.audio_track_id },
                );
                self.outputs.push_back(
                    WebrtcTaskOutput::PublishTrack { track_id: self.video_track_id },
                );
                None
            },
            EngineOutput::MediaAdded { mid, kind } => {
                if kind == MediaKind::Audio {
                    self.audio_mid = Some(mid);
                } else {
                    self.video_mid = Some(mid);
                }
                None
            },
            EngineOutput::IceConnectionStateChange(ice) => {
                if ice == IceState::Disconnected {
                    self.ended = true;
                    Some(WebrtcTaskOutput::TaskEnded)
                } else {
                    None
                }
            },
            EngineOutput::RtpPacket(rtp) => {
                let track_id = if rtp.payload_type == AUDIO_PAYLOAD_TYPE {
                    self.audio_track_id
                } else {
                    self.video_track_id
                };
                Some(WebrtcTaskOutput::TrackMedia(TrackMedia::from_raw(track_id, rtp)))
            },
            EngineOutput::KeyframeRequest { .. } => None,
            EngineOutput::Other => None,
        }
    }
}

/// The media line on which a publisher's session in state `state` asks its
/// peer for a keyframe of track `track_id`: the video line, where the track
/// is the session's video track and the peer has declared the line.
pub open spec fn keyframe_mid(state: TaskView, track_id: u64) -> Option<str0m::media::Mid> {
    if !state.ended && track_id == state.video_track_id {
        state.video_mid
    } else {
        None
    }
}

impl TaskCore {
    /// The media line on which a publisher's session asks its peer for a
    /// keyframe of track `track_id`. Nothing where the session has no such
    /// track or does not know the line yet.
    pub fn keyframe_plan(&self, track_id: u64) -> (mid: Option<str0m::media::Mid>)
        ensures
            mid == keyframe_mid(self@, track_id),
    {
        if !self.ended && track_id == self.video_track_id {
            self.video_mid
        } else {
            None
        }
    }
}

/// A publisher's session.
pub struct WhipServerTask {
    core: TaskCore,
    engine: Engine,
}

impl View for WhipServerTask {
    type V = TaskView;

    closed spec fn view(&self) -> TaskView {
        self.core@
    }
}

/// Whether a publisher's session hands `event` to its engine as a datagram.
pub open spec fn is_datagram(event: WebrtcTaskInput) -> bool {
    event matches WebrtcTaskInput::Io(IoEvent::UdpSocketRecv { .. })
}

/// Whether `event` is an HTTP request, which no session takes once it is set up.
pub open spec fn is_http(event: WebrtcTaskInput) -> bool {
    event matches WebrtcTaskInput::Io(IoEvent::HttpRequest(_))
}

/// What `input` does to a publisher's session in state `before`. An ended
/// session takes nothing, and no session takes an HTTP request or media.
/// A datagram goes to the engine and clears the timeout schedule. A keyframe
/// request reaches the engine only where it names the session's video track
/// and the video media line is known.
pub open spec fn whip_input_post(
    before: TaskView,
    event: WebrtcTaskInput,
    after: TaskView,
    more: bool,
    engine_kept: bool,
) -> bool {
    if before.ended || is_http(event) || event is TrackMedia {
        !more && after == before && engine_kept
    } else if is_datagram(event) {
        more && after == (TaskView { timeout: None, ..before })
    } else {
        &&& more
        &&& after == before
        &&& event matches WebrtcTaskInput::RequestKeyframeTrack { track_id, .. } ==> keyframe_mid(
            before,
            track_id,
        ) is None ==> engine_kept
    }
}

impl WhipServerTask {
    /// The session's engine.
    pub closed spec fn engine(&self) -> Engine {
        self.engine
    }

    /// Sets up a publisher's session for the offer in the body of `req`: an
    /// engine in RTP mode and ICE-lite mode with the certificate `dtls_cert` and
    /// one local candidate for each of `local_addrs`. The session counts time in
    /// nanoseconds from `epoch` and starts at `now`. Where the engine accepts the
    /// offer, the answer waits as the session's first output; where it refuses,
    /// the refusal comes back in place of a session.
    pub fn new(
        dtls_cert: Certificate,
        req: HttpRequest,
        local_addrs: Vec<NetAddr>,
        epoch: std::time::Instant,
        now: u64,
    ) -> (made: Result<WhipServerTask, HttpResponse>)
        ensures
            match made {
                Ok(task) => task.engine().epoch() == epoch && exists|res: HttpResponse|
                    {
                        &&& #[trigger] TaskCore::is_fresh(task@, res, http_auth(req.headers@))
                        &&& is_sdp_answer(res, req.req_id, whip_location(), res.body@)
                    },
                Err(res) => is_bad_request(res, req.req_id),
            },
    {
        let channel = get_http_auth(&req);
        let mut engine = build_engine(dtls_cert, epoch, now, true, true);
        let ice_ufrag = local_ufrag(&mut engine);
        enable_twcc_feedback(&mut engine);
        let mut i: usize = 0;
        while i < local_addrs.len()
            invariant
                i <= local_addrs.len(),
                engine.epoch() == epoch,
            decreases local_addrs.len() - i,
        {
            add_local_candidate(&mut engine, local_addrs[i]);
            i = i + 1;
        }
        match accept_offer(&mut engine, req.body.as_slice()) {
            Some(answer) => {
                let res = sdp_answer(req.req_id, "/whip/endpoint/1234", answer);
                let core = TaskCore::fresh(ice_ufrag, res, channel.as_str());
                let task = WhipServerTask { core, engine };
                assert(TaskCore::is_fresh(task@, res, http_auth(req.headers@)));
                Ok(task)
            },
            None => Err(bad_request(req.req_id)),
        }
    }

    /// The session's state apart from its engine.
    pub fn state(&self) -> (core: &TaskCore)
        ensures
            core@ == self@,
    {
        &self.core
    }

    /// The ICE username fragment of the session's engine.
    pub fn ufrag(&self) -> (ufrag: String)
        ensures
            ufrag@ == self@.ice_ufrag,
    {
        self.core.ice_ufrag.clone()
    }

    /// Lets time pass: a timeout that has come at `now` goes to the engine.
    /// Says whether it did.
    pub fn tick(&mut self, now: u64) -> (more: bool)
        ensures
            final(self).engine().epoch() == old(self).engine().epoch(),
            tick_post(old(self)@, now, final(self)@, more, final(self).engine() == old(self).engine()),
    {
        if self.core.due(now) {
            handle_timeout(&mut self.engine, now);
            self.core.timeout = None;
            true
        } else {
            false
        }
    }

    /// Takes one input at `now`. Says whether the session may have more to pop.
    pub fn input<'b>(&mut self, now: u64, event: WebrtcTaskInput<'b>) -> (more: bool)
        ensures
            final(self).engine().epoch() == old(self).engine().epoch(),
            whip_input_post(
                old(self)@,
                event,
                final(self)@,
                more,
                final(self).engine() == old(self).engine(),
            ),
    {
        if self.core.ended {
            return false;
        }
        match event {
            WebrtcTaskInput::Io(IoEvent::HttpRequest(_)) => false,
            WebrtcTaskInput::Io(IoEvent::UdpSocketRecv { from, to, buf }) => {
                handle_receive(&mut self.engine, now, from, to, buf);
                self.core.timeout = None;
                true
            },
            WebrtcTaskInput::RequestKeyframeTrack { track_id, kind } => {
                if let Some(mid) = self.core.keyframe_plan(track_id) {
                    request_keyframe(&mut self.engine, mid, kind);
                }
                true
            },
            WebrtcTaskInput::TrackMedia(_) => false,
        }
    }

    /// Takes one output of the engine, as `pop_action` does with what a poll
    /// hands back.
    pub fn dispatch(&mut self, out: EngineOutput) -> (output: Option<WebrtcTaskOutput>)
        ensures
            final(self)@ == whip_step(old(self)@, out).0,
            output == whip_step(old(self)@, out).1,
            final(self).engine() == old(self).engine(),
    {
        self.core.whip_dispatch(out)
    }

    /// The session's next output at `now`, if it has one: the oldest queued
    /// output, else what the session makes of the engine's next output.
    pub fn pop_action(&mut self, now: u64) -> (output: Option<WebrtcTaskOutput>)
        ensures
            final(self).engine().epoch() == old(self).engine().epoch(),
            pop_post(
                true,
                old(self)@,
                now,
                final(self)@,
                output,
                final(self).engine() == old(self).engine(),
            ),
    {
        if self.core.ended {
            return None;
        }
        if let Some(output) = self.core.outputs.pop_front() {
            return Some(output);
        }
        if let Some(at) = self.core.timeout {
            if at > now {
                return None;
            }
        }
        match self.engine.poll() {
            Some(out) => {
                let output = self.core.whip_dispatch(out);
                assert(step(true, old(self)@, out) == (self@, output));
                output
            },
            None => None,
        }
    }
}

} // verus!
