use std::hash::{Hash, Hasher};
use std::time::Instant;

use tiny_media_server::io::{Headers, HttpRequest, IoAction, IoEvent, NetAddr};
use tiny_media_server::tasks::engine::{Certificate, EngineOutput, IceState};
use tiny_media_server::tasks::whep::WhepServerTask;
use tiny_media_server::tasks::whip::WhipServerTask;
use tiny_media_server::tasks::{
    track_id_builder, ComposeTask, KeyframeRequestKind, MediaKind, RtpData, TrackMedia,
    WebrtcTask, WebrtcTaskInput, WebrtcTaskOutput,
};

fn offer(direction: &str) -> Vec<u8> {
    let fingerprint = "AE:DC:49:AE:CA:55:35:CB:4E:FA:FE:70:99:30:C0:14:C3:B8:06:80:1F:A9:DA:9A:7C:FB:B7:20:AB:83:60:45";
    let mut sdp = String::new();
    sdp.push_str("v=0\r\n");
    sdp.push_str("o=- 4611731400430051336 2 IN IP4 127.0.0.1\r\n");
    sdp.push_str("s=-\r\n");
    sdp.push_str("t=0 0\r\n");
    sdp.push_str("a=group:BUNDLE 0 1\r\n");
    for (mid, kind, pt, codec) in [("0", "audio", "111", "opus/48000/2"), ("1", "video", "96", "VP8/90000")] {
        sdp.push_str(&format!("m={} 9 UDP/TLS/RTP/SAVPF {}\r\n", kind, pt));
        sdp.push_str("c=IN IP4 0.0.0.0\r\n");
        sdp.push_str("a=rtcp:9 IN IP4 0.0.0.0\r\n");
        sdp.push_str("a=ice-ufrag:S5hk\r\n");
        sdp.push_str("a=ice-pwd:0zV/Yu3y8aDzbHgqWhnVQhqP\r\n");
        sdp.push_str(&format!("a=fingerprint:sha-256 {}\r\n", fingerprint));
        sdp.push_str("a=setup:actpass\r\n");
        sdp.push_str(&format!("a=mid:{}\r\n", mid));
        sdp.push_str(&format!("a={}\r\n", direction));
        sdp.push_str("a=rtcp-mux\r\n");
        sdp.push_str(&format!("a=rtpmap:{} {}\r\n", pt, codec));
    }
    sdp.into_bytes()
}

fn request(req_id: u64, path: &str, channel: Option<&str>, body: Vec<u8>) -> HttpRequest {
    let mut headers = Headers::new();
    if let Some(channel) = channel {
        headers.insert("Authorization".to_string(), channel.to_string());
    }
    HttpRequest { req_id, method: "POST".to_string(), path: path.to_string(), headers, body }
}

fn cert() -> Certificate {
    Certificate::generate().expect("a certificate")
}

fn local() -> NetAddr {
    NetAddr::V4 { ip: 0x7f00_0001, port: 40000 }
}

fn whip(req_id: u64, channel: &str) -> WhipServerTask {
    let req = request(req_id, "/whip/endpoint", Some(channel), offer("sendonly"));
    WhipServerTask::new(cert(), req, vec![local()], Instant::now(), 0).expect("a session")
}

fn whep(req_id: u64, channel: &str) -> WhepServerTask {
    let req = request(req_id, "/whep/endpoint", Some(channel), offer("recvonly"));
    WhepServerTask::new(cert(), req, vec![local()], Instant::now(), 0).expect("a session")
}

fn media(track_id: u64, payload_type: u8, seq_no: u64) -> TrackMedia {
    TrackMedia {
        track_id,
        seq_no,
        time: str0m::media::MediaTime::from_secs(0),
        header: str0m::rtp::RtpHeader::default(),
        payload_type,
        payload: vec![1, 2, 3],
        timestamp: 5,
    }
}

fn assert_answer(output: Option<WebrtcTaskOutput>, req_id: u64, location: &str) {
    match output {
        Some(WebrtcTaskOutput::Io(IoAction::HttpResponse(res))) => {
            assert_eq!(res.req_id, req_id);
            assert_eq!(res.status, 200);
            assert_eq!(res.headers.len(), 2);
            assert_eq!(
                res.headers.get(&"Content-Type".to_string()),
                Some(&"application/sdp".to_string())
            );
            assert_eq!(res.headers.get(&"Location".to_string()), Some(&location.to_string()));
            assert!(!res.body.is_empty());
            assert!(String::from_utf8(res.body).unwrap().starts_with("v=0"));
        }
        _ => panic!("the first output is the answer"),
    }
}

#[test]
fn track_ids_depend_on_channel_and_kind_alone() {
    let audio = track_id_builder("room1", MediaKind::Audio);
    let video = track_id_builder("room1", MediaKind::Video);
    assert_eq!(audio, track_id_builder("room1", MediaKind::Audio));
    assert_eq!(video, track_id_builder(&String::from("room1"), MediaKind::Video));
    assert_ne!(audio, video);
    assert_ne!(audio, track_id_builder("room2", MediaKind::Audio));
    assert_ne!(video, track_id_builder("room2", MediaKind::Video));
}

#[test]
fn track_id_is_the_default_hash_of_channel_then_kind() {
    let mut hasher = std::collections::hash_map::DefaultHasher::new();
    "demo".hash(&mut hasher);
    str0m::media::MediaKind::Video.hash(&mut hasher);
    assert_eq!(track_id_builder("demo", MediaKind::Video), hasher.finish());
}

#[test]
fn whip_handshake_answers_once() {
    let mut task = whip(11, "room1");
    assert!(!task.ufrag().is_empty());
    assert_eq!(task.state().outputs.len(), 1);
    assert_eq!(task.state().timeout, None);
    assert_eq!(task.state().audio_track_id, track_id_builder("room1", MediaKind::Audio));
    assert_eq!(task.state().video_track_id, track_id_builder("room1", MediaKind::Video));
    assert_answer(task.pop_action(0), 11, "/whip/endpoint/1234");
    let mut later = 0;
    while let Some(output) = task.pop_action(later) {
        assert!(!matches!(output, WebrtcTaskOutput::Io(IoAction::HttpResponse(_))));
        later += 1;
        assert!(later < 1000);
    }
}

#[test]
fn whep_handshake_answers_once() {
    let mut task = whep(12, "room1");
    assert_answer(task.pop_action(0), 12, "/whep/endpoint/1234");
    assert_eq!(task.state().outputs.len(), 0);
}

#[test]
fn channel_defaults_to_demo() {
    let req = request(1, "/whip/endpoint", None, offer("sendonly"));
    let task = WhipServerTask::new(cert(), req, vec![local()], Instant::now(), 0).expect("a session");
    assert_eq!(task.state().audio_track_id, track_id_builder("demo", MediaKind::Audio));
    assert_eq!(task.state().video_track_id, track_id_builder("demo", MediaKind::Video));
}

#[test]
fn sessions_have_their_own_ufrags() {
    assert_ne!(whip(1, "room1").ufrag(), whip(2, "room1").ufrag());
}

#[test]
fn bad_offer_is_refused() {
    let req = request(13, "/whip/endpoint", Some("room1"), b"this is no offer".to_vec());
    match WhipServerTask::new(cert(), req, vec![local()], Instant::now(), 0) {
        Err(res) => {
            assert_eq!(res.req_id, 13);
            assert_eq!(res.status, 400);
            assert_eq!(res.headers.len(), 0);
            assert_eq!(res.body, b"Bad Request".to_vec());
        }
        Ok(_) => panic!("no session comes of a bad offer"),
    }
    let req = request(14, "/whep/endpoint", Some("room1"), Vec::new());
    match WhepServerTask::new(cert(), req, vec![local()], Instant::now(), 0) {
        Err(res) => {
            assert_eq!(res.req_id, 14);
            assert_eq!(res.status, 400);
        }
        Ok(_) => panic!("no session comes of an empty offer"),
    }
}

#[test]
fn whip_publishes_both_tracks_when_connected() {
    let mut task = whip(1, "room1");
    assert_answer(task.pop_action(0), 1, "/whip/endpoint/1234");
    assert!(task.dispatch(EngineOutput::Connected).is_none());
    match task.pop_action(0) {
        Some(WebrtcTaskOutput::PublishTrack { track_id }) => {
            assert_eq!(track_id, track_id_builder("room1", MediaKind::Audio))
        }
        _ => panic!("the audio track is published first"),
    }
    match task.pop_action(0) {
        Some(WebrtcTaskOutput::PublishTrack { track_id }) => {
            assert_eq!(track_id, track_id_builder("room1", MediaKind::Video))
        }
        _ => panic!("the video track is published second"),
    }
}

#[test]
fn whep_subscribes_both_tracks_when_connected() {
    let mut task = whep(1, "room1");
    assert_answer(task.pop_action(0), 1, "/whep/endpoint/1234");
    assert!(task.dispatch(EngineOutput::Connected).is_none());
    match task.pop_action(0) {
        Some(WebrtcTaskOutput::SubscribeTrack { track_id }) => {
            assert_eq!(track_id, track_id_builder("room1", MediaKind::Audio))
        }
        _ => panic!("the audio track is subscribed first"),
    }
    match task.pop_action(0) {
        Some(WebrtcTaskOutput::SubscribeTrack { track_id }) => {
            assert_eq!(track_id, track_id_builder("room1", MediaKind::Video))
        }
        _ => panic!("the video track is subscribed second"),
    }
}

#[test]
fn timeout_is_stored_and_holds_the_poll_back() {
    let mut task = whip(1, "room1");
    assert_answer(task.pop_action(0), 1, "/whip/endpoint/1234");
    assert!(task.dispatch(EngineOutput::Timeout(500)).is_none());
    assert_eq!(task.state().timeout, Some(500));
    assert!(task.pop_action(499).is_none());
    assert_eq!(task.state().timeout, Some(500));
    assert!(!task.tick(499));
    assert_eq!(task.state().timeout, Some(500));
    assert!(task.tick(500));
    assert_eq!(task.state().timeout, None);
    assert!(!task.tick(501));
}

#[test]
fn transmit_becomes_a_udp_send() {
    let mut task = whep(1, "room1");
    let from = local();
    let to = NetAddr::V4 { ip: 0x0a00_0001, port: 5000 };
    match task.dispatch(EngineOutput::Transmit { from, to, buf: vec![9, 8, 7] }) {
        Some(WebrtcTaskOutput::Io(IoAction::UdpSocketSend { from: f, to: t, buf })) => {
            assert_eq!(f, from);
            assert_eq!(t, to);
            assert_eq!(buf, vec![9, 8, 7]);
        }
        _ => panic!("a transmit goes out as a datagram"),
    }
}

#[test]
fn media_added_fills_the_mid_slots() {
    let mut task = whep(1, "room1");
    let audio: str0m::media::Mid = "0".into();
    let video: str0m::media::Mid = "1".into();
    assert!(task.dispatch(EngineOutput::MediaAdded { mid: audio, kind: MediaKind::Audio }).is_none());
    assert_eq!(task.state().audio_mid, Some(audio));
    assert_eq!(task.state().video_mid, None);
    assert!(task.dispatch(EngineOutput::MediaAdded { mid: video, kind: MediaKind::Video }).is_none());
    assert_eq!(task.state().audio_mid, Some(audio));
    assert_eq!(task.state().video_mid, Some(video));
}

#[test]
fn whip_tags_rtp_by_payload_type() {
    let mut task = whip(1, "room1");
    for (payload_type, kind) in [(111u8, MediaKind::Audio), (96, MediaKind::Video), (0, MediaKind::Video)] {
        let rtp = RtpData {
            seq_no: 42,
            time: str0m::media::MediaTime::from_secs(0),
            header: str0m::rtp::RtpHeader::default(),
            payload_type,
            payload: vec![1, 2],
            timestamp: 77,
        };
        match task.dispatch(EngineOutput::RtpPacket(rtp)) {
            Some(WebrtcTaskOutput::TrackMedia(media)) => {
                assert_eq!(media.track_id, track_id_builder("room1", kind));
                assert_eq!(media.seq_no, 42);
                assert_eq!(media.payload_type, payload_type);
                assert_eq!(media.payload, vec![1, 2]);
                assert_eq!(media.timestamp, 77);
            }
            _ => panic!("an RTP packet goes to the bus"),
        }
    }
}

#[test]
fn from_raw_keeps_the_packet() {
    let rtp = RtpData {
        seq_no: 65_536 + 7,
        time: str0m::media::MediaTime::from_secs(3),
        header: str0m::rtp::RtpHeader::default(),
        payload_type: 96,
        payload: vec![4, 5, 6],
        timestamp: 123_456,
    };
    let media = TrackMedia::from_raw(99, rtp);
    assert_eq!(media.track_id, 99);
    assert_eq!(media.seq_no, 65_536 + 7);
    assert_eq!(media.payload_type, 96);
    assert_eq!(media.payload, vec![4, 5, 6]);
    assert_eq!(media.timestamp, 123_456);
    assert_eq!(media.header, str0m::rtp::RtpHeader::default());
    let copy = media.duplicate();
    assert_eq!(copy.track_id, 99);
    assert_eq!(copy.seq_no, media.seq_no);
    assert_eq!(copy.payload, media.payload);
    assert_eq!(copy.header, media.header);
    assert_eq!(copy.timestamp, media.timestamp);
}

#[test]
fn whep_forwards_keyframe_requests_for_video() {
    let mut task = whep(1, "room1");
    let mid: str0m::media::Mid = "1".into();
    match task.dispatch(EngineOutput::KeyframeRequest { mid, kind: KeyframeRequestKind::Pli }) {
        Some(WebrtcTaskOutput::RequestKeyframeTrack { track_id, kind }) => {
            assert_eq!(track_id, track_id_builder("room1", MediaKind::Video));
            assert_eq!(kind, KeyframeRequestKind::Pli);
        }
        _ => panic!("a keyframe request goes to the bus"),
    }
    let mut publisher = whip(2, "room1");
    assert!(publisher
        .dispatch(EngineOutput::KeyframeRequest { mid, kind: KeyframeRequestKind::Fir })
        .is_none());
}

#[test]
fn disconnect_ends_the_session_for_good() {
    let mut task = whip(1, "room1");
    assert_answer(task.pop_action(0), 1, "/whip/endpoint/1234");
    for state in [IceState::New, IceState::Checking, IceState::Connected, IceState::Completed] {
        assert!(task.dispatch(EngineOutput::IceConnectionStateChange(state)).is_none());
        assert!(!task.state().ended);
    }
    assert!(matches!(
        task.dispatch(EngineOutput::IceConnectionStateChange(IceState::Disconnected)),
        Some(WebrtcTaskOutput::TaskEnded)
    ));
    assert!(task.state().ended);
    assert!(task.pop_action(0).is_none());
    assert!(task.pop_action(1_000_000_000).is_none());
    assert!(task.dispatch(EngineOutput::Connected).is_none());
    assert_eq!(task.state().outputs.len(), 0);
    assert!(task
        .dispatch(EngineOutput::IceConnectionStateChange(IceState::Disconnected))
        .is_none());
    assert!(!task.tick(2_000_000_000));
    let buf = [0u8; 4];
    assert!(!task.input(
        3_000_000_000,
        WebrtcTaskInput::Io(IoEvent::UdpSocketRecv { from: local(), to: local(), buf: &buf })
    ));
}

#[test]
fn whep_drops_media_before_media_added() {
    let mut task = whep(1, "room1");
    let video = track_id_builder("room1", MediaKind::Video);
    let audio = track_id_builder("room1", MediaKind::Audio);
    assert!(task.input(1, WebrtcTaskInput::TrackMedia(media(video, 96, 42))));
    assert!(task.input(2, WebrtcTaskInput::TrackMedia(media(audio, 111, 43))));
    assert_eq!(task.state().outputs.len(), 1);
    assert_eq!(task.state().timeout, None);
    assert_answer(task.pop_action(3), 1, "/whep/endpoint/1234");
    assert_eq!(task.state().outputs.len(), 0);
}

#[test]
fn whep_takes_media_once_the_mid_is_known() {
    let mut task = whep(1, "room1");
    assert_answer(task.pop_action(0), 1, "/whep/endpoint/1234");
    let mid: str0m::media::Mid = "1".into();
    task.dispatch(EngineOutput::MediaAdded { mid, kind: MediaKind::Video });
    task.dispatch(EngineOutput::Timeout(1_000_000));
    let video = track_id_builder("room1", MediaKind::Video);
    assert!(task.input(1, WebrtcTaskInput::TrackMedia(media(video, 96, 42))));
    assert!(task.input(2, WebrtcTaskInput::TrackMedia(media(video, 200, 43))));
    assert_eq!(task.state().outputs.len(), 0);
    assert!(task.input(3, WebrtcTaskInput::TrackMedia(media(video, 111, 44))));
}

#[test]
fn sessions_ignore_inputs_that_are_not_theirs() {
    let mut publisher = whip(1, "room1");
    let mut subscriber = whep(2, "room1");
    let video = track_id_builder("room1", MediaKind::Video);
    assert!(!publisher.input(1, WebrtcTaskInput::TrackMedia(media(video, 96, 1))));
    assert!(!subscriber.input(
        1,
        WebrtcTaskInput::RequestKeyframeTrack { track_id: video, kind: KeyframeRequestKind::Pli }
    ));
    let again = request(3, "/whip/endpoint", Some("room1"), offer("sendonly"));
    assert!(!publisher.input(1, WebrtcTaskInput::Io(IoEvent::HttpRequest(again))));
    assert_eq!(publisher.state().outputs.len(), 1);
    assert_eq!(subscriber.state().outputs.len(), 1);
}

#[test]
fn whip_takes_keyframe_requests_for_its_video_track() {
    let mut task = whip(1, "room1");
    let video = track_id_builder("room1", MediaKind::Video);
    let audio = track_id_builder("room1", MediaKind::Audio);
    task.dispatch(EngineOutput::Timeout(1_000));
    assert!(task.input(
        1,
        WebrtcTaskInput::RequestKeyframeTrack { track_id: video, kind: KeyframeRequestKind::Pli }
    ));
    assert!(task.input(
        1,
        WebrtcTaskInput::RequestKeyframeTrack { track_id: audio, kind: KeyframeRequestKind::Fir }
    ));
    assert_eq!(task.state().keyframe_plan(video), None);
    let mid: str0m::media::Mid = "1".into();
    task.dispatch(EngineOutput::MediaAdded { mid, kind: MediaKind::Video });
    assert_eq!(task.state().keyframe_plan(video), Some(mid));
    assert_eq!(task.state().keyframe_plan(audio), None);
    assert!(task.input(
        2,
        WebrtcTaskInput::RequestKeyframeTrack { track_id: video, kind: KeyframeRequestKind::Pli }
    ));
    assert_eq!(task.state().timeout, Some(1_000));
    task.dispatch(EngineOutput::IceConnectionStateChange(IceState::Disconnected));
    assert_eq!(task.state().keyframe_plan(video), None);
}

#[test]
fn datagram_clears_the_timeout() {
    let mut task = whip(1, "room1");
    task.dispatch(EngineOutput::Timeout(1_000_000));
    assert_eq!(task.state().timeout, Some(1_000_000));
    let buf = [0u8, 1, 2, 3];
    let from = NetAddr::V4 { ip: 0x0a00_0001, port: 5000 };
    assert!(task.input(
        10,
        WebrtcTaskInput::Io(IoEvent::UdpSocketRecv { from, to: local(), buf: &buf })
    ));
    assert_eq!(task.state().timeout, None);
}

#[test]
fn compose_task_dispatches_by_kind() {
    let mut publisher = ComposeTask::Whip(whip(1, "room1"));
    let mut subscriber = ComposeTask::Whep(whep(2, "room1"));
    assert_eq!(publisher.ufrag(), publisher.state().ice_ufrag);
    assert_answer(publisher.pop_action(0), 1, "/whip/endpoint/1234");
    assert_answer(subscriber.pop_action(0), 2, "/whep/endpoint/1234");
    publisher.dispatch(EngineOutput::Connected);
    subscriber.dispatch(EngineOutput::Connected);
    assert!(matches!(publisher.pop_action(0), Some(WebrtcTaskOutput::PublishTrack { .. })));
    assert!(matches!(subscriber.pop_action(0), Some(WebrtcTaskOutput::SubscribeTrack { .. })));
    publisher.dispatch(EngineOutput::Timeout(10));
    assert!(!publisher.tick(9));
    assert!(publisher.tick(10));
}

#[test]
fn whep_drops_media_that_no_datagram_carries() {
    let mut task = whep(1, "room1");
    assert_answer(task.pop_action(0), 1, "/whep/endpoint/1234");
    let mid: str0m::media::Mid = "1".into();
    task.dispatch(EngineOutput::MediaAdded { mid, kind: MediaKind::Video });
    task.dispatch(EngineOutput::Timeout(1_000_000));
    let video = track_id_builder("room1", MediaKind::Video);
    let mut large = media(video, 96, 42);
    large.payload = vec![0; 1501];
    assert!(task.input(1, WebrtcTaskInput::TrackMedia(large)));
    assert_eq!(task.state().timeout, Some(1_000_000));
    assert!(task.input(2, WebrtcTaskInput::TrackMedia(media(video, 128, 43))));
    assert_eq!(task.state().timeout, Some(1_000_000));
    assert_eq!(task.state().outputs.len(), 0);
    let plan = task.state().forward_plan(&media(video, 96, 44));
    assert_eq!(plan, Some((mid, true)));
    assert_eq!(task.state().forward_plan(&media(video, 111, 45)), None);
}

#[test]
fn io_values_convert_into_task_values() {
    let buf = [1u8, 2];
    let event = IoEvent::UdpSocketRecv { from: local(), to: local(), buf: &buf };
    match WebrtcTaskInput::from(event) {
        WebrtcTaskInput::Io(IoEvent::UdpSocketRecv { from, buf, .. }) => {
            assert_eq!(from, local());
            assert_eq!(buf, &[1u8, 2]);
        }
        _ => panic!("an I/O event stays an I/O event"),
    }
    let action = IoAction::UdpSocketSend { from: local(), to: local(), buf: vec![3] };
    match WebrtcTaskOutput::from(action) {
        WebrtcTaskOutput::Io(IoAction::UdpSocketSend { buf, .. }) => assert_eq!(buf, vec![3]),
        _ => panic!("an I/O action stays an I/O action"),
    }
}

#[test]
fn sessions_answer_through_the_task_trait() {
    fn drain<T: WebrtcTask>(task: &mut T) -> usize {
        let mut popped = 0;
        while task.pop_action(0).is_some() {
            popped += 1;
            assert!(popped < 1000);
        }
        popped
    }
    let mut publisher = whip(1, "room1");
    let ufrag = WebrtcTask::ufrag(&publisher);
    assert_eq!(ufrag, publisher.state().ice_ufrag);
    assert!(drain(&mut publisher) >= 1);
    let mut subscriber = ComposeTask::Whep(whep(2, "room1"));
    assert!(drain(&mut subscriber) >= 1);
    assert!(!WebrtcTask::tick(&mut subscriber, 0) || subscriber.state().timeout.is_none());
}

#[test]
fn transmit_needs_both_addresses() {
    let to = NetAddr::V6 { ip: 1, port: 9 };
    match EngineOutput::transmit(Some(local()), Some(to), vec![1, 2]) {
        EngineOutput::Transmit { from, to: t, buf } => {
            assert_eq!(from, local());
            assert_eq!(t, to);
            assert_eq!(buf, vec![1, 2]);
        }
        _ => panic!("a datagram with both addresses is a transmit"),
    }
    assert!(matches!(EngineOutput::transmit(None, Some(to), vec![1]), EngineOutput::Other));
    assert!(matches!(EngineOutput::transmit(Some(to), None, vec![1]), EngineOutput::Other));
    assert!(matches!(EngineOutput::transmit(None, None, Vec::new()), EngineOutput::Other));
}

#[test]
fn engine_answer_to_media_decides_on_the_timeout() {
    let mut task = whep(1, "room1");
    task.dispatch(EngineOutput::Timeout(700));
    let mut core = tiny_media_server::tasks::TaskCore {
        ice_ufrag: task.state().ice_ufrag.clone(),
        timeout: task.state().timeout,
        outputs: std::collections::VecDeque::new(),
        audio_mid: None,
        video_mid: None,
        audio_track_id: task.state().audio_track_id,
        video_track_id: task.state().video_track_id,
        ended: false,
    };
    core.media_written(false);
    assert_eq!(core.timeout, Some(700));
    core.media_written(true);
    assert_eq!(core.timeout, None);
    core.media_written(false);
    assert_eq!(core.timeout, None);
}

#[test]
fn one_certificate_serves_many_sessions() {
    let cert = cert();
    let again = cert.duplicate();
    let req = request(1, "/whip/endpoint", Some("room1"), offer("sendonly"));
    let mut first = WhipServerTask::new(cert, req, vec![local()], Instant::now(), 0).expect("a session");
    let req = request(2, "/whep/endpoint", Some("room1"), offer("recvonly"));
    let mut second = WhepServerTask::new(again, req, vec![local()], Instant::now(), 0).expect("a session");
    let fingerprint = |output: Option<WebrtcTaskOutput>| match output {
        Some(WebrtcTaskOutput::Io(IoAction::HttpResponse(res))) => String::from_utf8(res.body)
            .unwrap()
            .lines()
            .find(|line| line.starts_with("a=fingerprint:"))
            .map(|line| line.to_string())
            .expect("the answer names a fingerprint"),
        _ => panic!("the first output is the answer"),
    };
    assert_eq!(fingerprint(first.pop_action(0)), fingerprint(second.pop_action(0)));
}
