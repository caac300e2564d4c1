//! The subscriber's session: takes media from the bus and sends it to one peer.

use crate::http::{get_http_auth, http_auth};
use crate::io::{HttpRequest, HttpResponse, IoAction, IoEvent, NetAddr};
use crate::tasks::engine::{
    accept_offer, add_local_candidate, build_engine, handle_receive, handle_timeout, local_ufrag,
    write_rtp, Certificate, Engine, EngineOutput, IceState,
};
use crate::tasks::whip::{is_datagram, is_http};
use crate::tasks::{
    bad_request, is_bad_request, is_sdp_answer, pop_post, sdp_answer, step, tick_post, MediaKind,
    TaskCore, TaskView, TrackMedia, WebrtcTaskInput, WebrtcTaskOutput, AUDIO_PAYLOAD_TYPE,
    MAX_PAYLOAD_TYPE, MAX_RTP_PAYLOAD,
};
use vstd::prelude::*;

verus! {

/// Where the answer to a subscriber's offer says that the session lives.
pub open spec fn whep_location() -> Seq<char> {
    "/whep/endpoint/1234"@
}

/// What a subscriber's session does with one output of its engine: the state
/// that follows `state`, and what the session hands to the worker. A session
/// that has ended does nothing.
pub open spec fn whep_step(state: TaskView, out: EngineOutput) -> (
    TaskView,
    Option<WebrtcTaskOutput>,
) {
    if state.ended {
        (state, None)
    } else {
        whep_live_step(state, out)
    }
}

/// What a subscriber's session that has not ended does with one output of its
/// engine.
pub open spec fn whep_live_step(state: TaskView, out: EngineOutput) -> (
    TaskView,
    Option<WebrtcTaskOutput>,
) {
    match out {
        EngineOutput::Timeout(at) => (TaskView { timeout: Some(at), ..state }, None),
        EngineOutput::Transmit { from, to, buf } => (
            state,
            Some(WebrtcTaskOutput::Io(IoAction::UdpSocketSend { from, to, buf })),
        ),
        EngineOutput::Connected => (
            TaskView {
                outputs: state.outputs.push(
                    WebrtcTaskOutput::SubscribeTrack { track_id: state.audio_track_id },
                ).push(WebrtcTaskOutput::SubscribeTrack { track_id: state.video_track_id }),
                ..state
            },
            None,
        ),
        EngineOutput::MediaAdded { mid, kind } => (
            if kind == MediaKind::Audio {
                TaskView { audio_mid: Some(mid), ..state }
            } else {
                TaskView { video_mid: Some(mid), ..state }
            },
            None,
        ),
        EngineOutput::IceConnectionStateChange(ice) => if ice == IceState::Disconnected {
            (TaskView { ended: true, ..state }, Some(WebrtcTaskOutput::TaskEnded))
        } else {
            (state, None)
        },
        EngineOutput::KeyframeRequest { mid, kind } => (
            state,
            Some(
                WebrtcTaskOutput::RequestKeyframeTrack { track_id: state.video_track_id, kind },
            ),
        ),
        EngineOutput::RtpPacket(_) => (state, None),
        EngineOutput::Other => (state, None),
    }
}

/// The media line on which a subscriber's session in state `state` sends a
/// packet of payload type `payload_type`, if the peer has declared it: the
/// audio line for the audio payload type, the video line for every other.
pub open spec fn forward_mid(state: TaskView, payload_type: u8) -> Option<str0m::media::Mid> {
    if payload_type == AUDIO_PAYLOAD_TYPE {
        state.audio_mid
    } else {
        state.video_mid
    }
}

/// Whether a packet of payload type `payload_type` may be sent again on
/// request: video may, audio may not.
pub open spec fn forward_nackable(payload_type: u8) -> bool {
    payload_type != AUDIO_PAYLOAD_TYPE
}

/// Whether a subscriber's session in state `state` hands the packet `media`
/// to its engine: the session lives, the peer has declared the media line
/// for the packet, and the packet is one that an RTP datagram can carry.
pub open spec fn forwards(state: TaskView, media: TrackMedia) -> bool {
    &&& !state.ended
    &&& forward_mid(state, media.payload_type) is Some
    &&& media.payload_type <= MAX_PAYLOAD_TYPE
    &&& media.payload@.len() <= MAX_RTP_PAYLOAD
}

/// The state of a subscriber's session once its engine has answered to a
/// packet that was handed to it: where the engine took the packet, the
/// timeout schedule is cleared, so that the next pop asks the engine; where
/// it did not, nothing changes.
pub open spec fn media_written(state: TaskView, taken: bool) -> TaskView {
    if taken {
        TaskView { timeout: None, ..state }
    } else {
        state
    }
}

impl TaskCore {
    /// Takes the engine's answer to a packet that was handed to it, `taken`
    /// saying whether the engine took the packet.
    pub fn media_written(&mut self, taken: bool)
        ensures
            final(self)@ == media_written(old(self)@, taken),
    {
        if taken {
            self.timeout = None;
        }
    }

    /// Takes one output of a subscriber's engine.
    pub fn whep_dispatch(&mut self, out: EngineOutput) -> (output: Option<WebrtcTaskOutput>)
        ensures
            final(self)@ == whep_step(old(self)@, out).0,
            output == whep_step(old(self)@, out).1,
    {
        if self.ended {
            return None;
        }
        match out {
            EngineOutput::Timeout(at) => {
                self.timeout = Some(at);
                None
            },
            EngineOutput::Transmit { from, to, buf } => Some(
                WebrtcTaskOutput::Io(IoAction::UdpSocketSend { from, to, buf }),
            ),
            EngineOutput::Connected => {
                self.outputs.push_back(
                    WebrtcTaskOutput::SubscribeTrack { track_id: self.audio_track_id },
                );
                self.outputs.push_back(
                    WebrtcTaskOutput::SubscribeTrack { track_id: self.video_track_id },
                );
                None
            },
            EngineOutput::MediaAdded { mid, kind } => {
                if kind == MediaKind::Audio {
                    self.audio_mid = Some(mid);
                } else {
                    self.video_mid = Some(mid);
                }
                None
            },
            EngineOutput::IceConnectionStateChange(ice) => {
                if ice == IceState::Disconnected {
                    self.ended = true;
                    Some(WebrtcTaskOutput::TaskEnded)
                } else {
                    None
                }
            },
            EngineOutput::KeyframeRequest { mid, kind } => Some(
                WebrtcTaskOutput::RequestKeyframeTrack { track_id: self.video_track_id, kind },
            ),
            EngineOutput::RtpPacket(_) => None,
            EngineOutput::Other => None,
        }
    }

    /// Where and how a subscriber's session sends the packet `media`: the
    /// media line and whether the packet may be sent again on request.
    /// Nothing where the session drops the packet.
    pub fn forward_plan(&self, media: &TrackMedia) -> (plan: Option<(str0m::media::Mid, bool)>)
        ensures
            plan is Some == forwards(self@, *media),
            plan matches Some((mid, nackable)) ==> Some(mid) == forward_mid(
                self@,
                media.payload_type,
            ) && nackable == forward_nackable(media.payload_type),
    {
        let payload_type = media.payload_type;
        if self.ended || payload_type > MAX_PAYLOAD_TYPE || media.payload.len()
            > MAX_RTP_PAYLOAD {
            return None;
        }
        let (mid, nackable) = if payload_type == AUDIO_PAYLOAD_TYPE {
            (self.audio_mid, false)
        } else {
            (self.video_mid, true)
        };
        match mid {
            Some(mid) => Some((mid, nackable)),
            None => None,
        }
    }
}

/// A subscriber's session.
pub struct WhepServerTask {
    core: TaskCore,
    engine: Engine,
}

impl View for WhepServerTask {
    type V = TaskView;

    closed spec fn view(&self) -> TaskView {
        self.core@
    }
}

/// What `input` does to a subscriber's session in state `before`. An ended
/// session takes nothing, and no session takes an HTTP request or a keyframe
/// request. A datagram goes to the engine and clears the timeout schedule.
/// Media whose media line is not known yet, or which no RTP datagram can
/// carry, is dropped without a trace. Other media goes to the engine, and
/// the session takes the engine's answer as `media_written` says.
pub open spec fn whep_input_post(
    before: TaskView,
    event: WebrtcTaskInput,
    after: TaskView,
    more: bool,
    engine_kept: bool,
) -> bool {
    if before.ended || is_http(event) || event is RequestKeyframeTrack {
        !more && after == before && engine_kept
    } else if is_datagram(event) {
        more && after == (TaskView { timeout: None, ..before })
    } else {
        &&& more
        &&& event matches WebrtcTaskInput::TrackMedia(media) ==> if forwards(before, media) {
            after == media_written(before, true) || after == media_written(before, false)
        } else {
            after == before && engine_kept
        }
    }
}

impl WhepServerTask {
    /// The session's engine.
    pub closed spec fn engine(&self) -> Engine {
        self.engine
    }

    /// Sets up a subscriber's session for the offer in the body of `req`: an
    /// engine in RTP mode and ICE-lite mode with the certificate `dtls_cert` and
    /// one local candidate for each of `local_addrs`. The session counts time in
    /// nanoseconds from `epoch` and starts at `now`. Where the engine accepts the
    /// offer, the answer waits as the session's first output; where it refuses,
    /// the refusal comes back in place of a session.
    pub fn new(
        dtls_cert: Certificate,
        req: HttpRequest,
        local_addrs: Vec<NetAddr>,
        epoch: std::time::Instant,
        now: u64,
    ) -> (made: Result<WhepServerTask, HttpResponse>)
        ensures
            match made {
                Ok(task) => task.engine().epoch() == epoch && exists|res: HttpResponse|
                    {
                        &&& #[trigger] TaskCore::is_fresh(task@, res, http_auth(req.headers@))
                        &&& is_sdp_answer(res, req.req_id, whep_location(), res.body@)
                    },
                Err(res) => is_bad_request(res, req.req_id),
            },
    {
        let channel = get_http_auth(&req);
        let mut engine = build_engine(dtls_cert, epoch, now, true, true);
        let ice_ufrag = local_ufrag(&mut engine);
        let mut i: usize = 0;
        while i < local_addrs.len()
            invariant
                i <= local_addrs.len(),
                engine.epoch() == epoch,
            decreases local_addrs.len() - i,
        {
            add_local_candidate(&mut engine, local_addrs[i]);
            i = i + 1;
        }
        match accept_offer(&mut engine, req.body.as_slice()) {
            Some(answer) => {
                let res = sdp_answer(req.req_id, "/whep/endpoint/1234", answer);
                let core = TaskCore::fresh(ice_ufrag, res, channel.as_str());
                let task = WhepServerTask { core, engine };
                assert(TaskCore::is_fresh(task@, res, http_auth(req.headers@)));
                Ok(task)
            },
            None => Err(bad_request(req.req_id)),
        }
    }

    /// The session's state apart from its engine.
    pub fn state(&self) -> (core: &TaskCore)
        ensures
            core@ == self@,
    {
        &self.core
    }

    /// The ICE username fragment of the session's engine.
    pub fn ufrag(&self) -> (ufrag: String)
        ensures
            ufrag@ == self@.ice_ufrag,
    {
        self.core.ice_ufrag.clone()
    }

    /// Lets time pass: a timeout that has come at `now` goes to the engine.
    /// Says whether it did.
    pub fn tick(&mut self, now: u64) -> (more: bool)
        ensures
            final(self).engine().epoch() == old(self).engine().epoch(),
            tick_post(old(self)@, now, final(self)@, more, final(self).engine() == old(self).engine()),
    {
        if self.core.due(now) {
            handle_timeout(&mut self.engine, now);
            self.core.timeout = None;
            true
        } else {
            false
        }
    }

    /// Takes one input at `now`. Says whether the session may have more to pop.
    pub fn input<'b>(&mut self, now: u64, event: WebrtcTaskInput<'b>) -> (more: bool)
        ensures
            final(self).engine().epoch() == old(self).engine().epoch(),
            whep_input_post(
                old(self)@,
                event,
                final(self)@,
                more,
                final(self).engine() == old(self).engine(),
            ),
    {
        if self.core.ended {
            return false;
        }
        match event {
            WebrtcTaskInput::Io(IoEvent::HttpRequest(_)) => false,
            WebrtcTaskInput::Io(IoEvent::UdpSocketRecv { from, to, buf }) => {
                handle_receive(&mut self.engine, now, from, to, buf);
                self.core.timeout = None;
                true
            },
            WebrtcTaskInput::TrackMedia(media) => {
                if let Some((mid, nackable)) = self.core.forward_plan(&media) {
                    let taken = write_rtp(&mut self.engine, mid, media, nackable);
                    self.core.media_written(taken);
                }
                true
            },
            WebrtcTaskInput::RequestKeyframeTrack { .. } => false,
        }
    }

    /// Takes one output of the engine, as `pop_action` does with what a poll
    /// hands back.
    pub fn dispatch(&mut self, out: EngineOutput) -> (output: Option<WebrtcTaskOutput>)
        ensures
            final(self)@ == whep_step(old(self)@, out).0,
            output == whep_step(old(self)@, out).1,
            final(self).engine() == old(self).engine(),
    {
        self.core.whep_dispatch(out)
    }

    /// The session's next output at `now`, if it has one: the oldest queued
    /// output, else what the session makes of the engine's next output.
    pub fn pop_action(&mut self, now: u64) -> (output: Option<WebrtcTaskOutput>)
        ensures
            final(self).engine().epoch() == old(self).engine().epoch(),
            pop_post(
                false,
                old(self)@,
                now,
                final(self)@,
                output,
                final(self).engine() == old(self).engine(),
            ),
    {
        if self.core.ended {
            return None;
        }
        if let Some(output) = self.core.outputs.pop_front() {
            return Some(output);
        }
        if let Some(at) = self.core.timeout {
            if at > now {
                return None;
            }
        }
        match self.engine.poll() {
            Some(out) => {
                let output = self.core.whep_dispatch(out);
                assert(step(false, old(self)@, out) == (self@, output));
                output
            },
            None => None,
        }
    }
}

} // verus!
