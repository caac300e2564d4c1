use std::time::Instant;

use tiny_media_server::io::{Headers, HttpRequest, IoAction, NetAddr};
use tiny_media_server::tasks::engine::{EngineOutput, IceState};
use tiny_media_server::tasks::{
    track_id_builder, KeyframeRequestKind, MediaKind, TrackMedia,
};
use tiny_media_server::worker::{BusEvent, Worker, WorkerAction};

fn offer(direction: &str) -> Vec<u8> {
    let fingerprint = "AE:DC:49:AE:CA:55:35:CB:4E:FA:FE:70:99:30:C0:14:C3:B8:06:80:1F:A9:DA:9A:7C:FB:B7:20:AB:83:60:45";
    let mut sdp = String::new();
    sdp.push_str("v=0\r\n");
    sdp.push_str("o=- 4611731400430051336 2 IN IP4 127.0.0.1\r\n");
    sdp.push_str("s=-\r\n");
    sdp.push_str("t=0 0\r\n");
    sdp.push_str("a=group:BUNDLE 0 1\r\n");
    for (mid, kind, pt, codec) in [("0", "audio", "111", "opus/48000/2"), ("1", "video", "96", "VP8/90000")] {
        sdp.push_str(&format!("m={} 9 UDP/TLS/RTP/SAVPF {}\r\n", kind, pt));
        sdp.push_str("c=IN IP4 0.0.0.0\r\n");
        sdp.push_str("a=rtcp:9 IN IP4 0.0.0.0\r\n");
        sdp.push_str("a=ice-ufrag:S5hk\r\n");
        sdp.push_str("a=ice-pwd:0zV/Yu3y8aDzbHgqWhnVQhqP\r\n");
        sdp.push_str(&format!("a=fingerprint:sha-256 {}\r\n", fingerprint));
        sdp.push_str("a=setup:actpass\r\n");
        sdp.push_str(&format!("a=mid:{}\r\n", mid));
        sdp.push_str(&format!("a={}\r\n", direction));
        sdp.push_str("a=rtcp-mux\r\n");
        sdp.push_str(&format!("a=rtpmap:{} {}\r\n", pt, codec));
    }
    sdp.into_bytes()
}

fn request(req_id: u64, path: &str, channel: &str, body: Vec<u8>) -> HttpRequest {
    let mut headers = Headers::new();
    headers.insert("Authorization".to_string(), channel.to_string());
    HttpRequest { req_id, method: "POST".to_string(), path: path.to_string(), headers, body }
}

fn local() -> NetAddr {
    NetAddr::V4 { ip: 0x7f00_0001, port: 40000 }
}

fn remote(port: u16) -> NetAddr {
    NetAddr::V4 { ip: 0x0a00_0002, port }
}

fn worker() -> Worker {
    Worker::new(local(), Instant::now()).expect("a worker")
}

fn publish(worker: &mut Worker, req_id: u64, channel: &str) -> usize {
    let id = worker.task_id_seed();
    let actions = worker.process_http(0, request(req_id, "/whip/endpoint", channel, offer("sendonly")));
    assert_one_response(&actions, req_id, 200);
    id
}

fn subscribe(worker: &mut Worker, req_id: u64, channel: &str) -> usize {
    let id = worker.task_id_seed();
    let actions = worker.process_http(0, request(req_id, "/whep/endpoint", channel, offer("recvonly")));
    assert_one_response(&actions, req_id, 200);
    id
}

fn assert_one_response(actions: &[WorkerAction], req_id: u64, status: u16) {
    let mut responses = 0;
    for (i, action) in actions.iter().enumerate() {
        if let WorkerAction::Io(IoAction::HttpResponse(res)) = action {
            assert_eq!(i, 0);
            assert_eq!(res.req_id, req_id);
            assert_eq!(res.status, status);
            responses += 1;
        }
    }
    assert_eq!(responses, 1);
}

fn binding_request(username: &str) -> Vec<u8> {
    let name = username.as_bytes();
    let pad = (4 - name.len() % 4) % 4;
    let attr_len = 4 + name.len() + pad;
    let mut buf = vec![0x00, 0x01, (attr_len >> 8) as u8, (attr_len & 0xff) as u8];
    buf.extend_from_slice(&[0x21, 0x12, 0xa4, 0x42]);
    buf.extend_from_slice(&[1, 2, 3, 4, 5, 6, 7, 8, 9, 10, 11, 12]);
    buf.extend_from_slice(&[0x00, 0x06, (name.len() >> 8) as u8, (name.len() & 0xff) as u8]);
    buf.extend_from_slice(name);
    buf.resize(buf.len() + pad, 0);
    buf
}

fn media(track_id: u64, payload_type: u8, seq_no: u64) -> TrackMedia {
    TrackMedia {
        track_id,
        seq_no,
        time: str0m::media::MediaTime::from_secs(0),
        header: str0m::rtp::RtpHeader::default(),
        payload_type,
        payload: vec![1, 2, 3],
        timestamp: 5,
    }
}

fn ufrag_of(worker: &Worker, id: usize) -> String {
    worker.get_task(id).expect("the session").task.ufrag()
}

#[test]
fn new_worker_is_empty() {
    let worker = worker();
    assert_eq!(worker.task_id_seed(), 0);
    assert!(worker.task_ids().is_empty());
    assert!(worker.ended_tasks().is_empty());
    assert!(worker.get_task(0).is_none());
    assert_eq!(worker.local_addr(), local());
    assert_eq!(worker.remote_owner(remote(1)), None);
    assert_eq!(worker.ufrag_owner("abcd"), None);
    assert!(worker.get_channel(1).is_none());
}

#[test]
fn unknown_path_is_not_found() {
    let mut worker = worker();
    let actions = worker.process_http(0, request(5, "/other", "room1", offer("sendonly")));
    assert_eq!(actions.len(), 1);
    match &actions[0] {
        WorkerAction::Io(IoAction::HttpResponse(res)) => {
            assert_eq!(res.req_id, 5);
            assert_eq!(res.status, 404);
            assert_eq!(res.headers.len(), 0);
            assert_eq!(res.body, b"Not Found".to_vec());
        }
        _ => panic!("the answer is a response"),
    }
    assert_eq!(worker.task_id_seed(), 0);
    assert!(worker.task_ids().is_empty());
    let actions = worker.process_http(0, request(6, "/whip/endpoint/", "room1", offer("sendonly")));
    assert_one_response(&actions, 6, 404);
}

#[test]
fn whip_request_sets_a_session_up() {
    let mut worker = worker();
    let actions = worker.process_http(0, request(7, "/whip/endpoint", "room1", offer("sendonly")));
    assert_one_response(&actions, 7, 200);
    match &actions[0] {
        WorkerAction::Io(IoAction::HttpResponse(res)) => {
            assert_eq!(
                res.headers.get(&"Location".to_string()),
                Some(&"/whip/endpoint/1234".to_string())
            );
            assert_eq!(
                res.headers.get(&"Content-Type".to_string()),
                Some(&"application/sdp".to_string())
            );
            assert!(!res.body.is_empty());
        }
        _ => panic!("the first action is the answer"),
    }
    assert_eq!(worker.task_id_seed(), 1);
    assert_eq!(worker.task_ids(), vec![0]);
    let ufrag = ufrag_of(&worker, 0);
    assert_eq!(worker.ufrag_owner(&ufrag), Some(0));
    let container = worker.get_task(0).unwrap();
    assert!(container.remotes.is_empty());
    assert!(container.pub_channels.is_empty());
    assert!(container.sub_channels.is_empty());
}

#[test]
fn whep_request_sets_a_session_up() {
    let mut worker = worker();
    let actions = worker.process_http(3, request(8, "/whep/endpoint", "room1", offer("recvonly")));
    assert_one_response(&actions, 8, 200);
    match &actions[0] {
        WorkerAction::Io(IoAction::HttpResponse(res)) => assert_eq!(
            res.headers.get(&"Location".to_string()),
            Some(&"/whep/endpoint/1234".to_string())
        ),
        _ => panic!("the first action is the answer"),
    }
    assert_eq!(worker.task_ids(), vec![0]);
}

#[test]
fn refused_offer_leaves_no_session() {
    let mut worker = worker();
    let actions = worker.process_http(0, request(9, "/whip/endpoint", "room1", b"nothing".to_vec()));
    assert_eq!(actions.len(), 1);
    assert_one_response(&actions, 9, 400);
    assert!(worker.task_ids().is_empty());
    assert_eq!(worker.task_id_seed(), 0);
}

#[test]
fn task_ids_are_never_reused() {
    let mut worker = worker();
    assert_eq!(publish(&mut worker, 1, "room1"), 0);
    assert_eq!(subscribe(&mut worker, 2, "room1"), 1);
    worker.dispatch(0, EngineOutput::IceConnectionStateChange(IceState::Disconnected));
    worker.pop_ended_tasks();
    assert_eq!(worker.task_ids(), vec![1]);
    assert_eq!(publish(&mut worker, 3, "room1"), 2);
    assert_eq!(worker.task_ids(), vec![1, 2]);
    assert_eq!(worker.task_id_seed(), 3);
}

#[test]
fn connected_publisher_becomes_a_source() {
    let mut worker = worker();
    let id = publish(&mut worker, 1, "room1");
    assert!(worker.dispatch(id, EngineOutput::Connected).is_none());
    let actions = worker.pop_task(0, id);
    assert!(actions.iter().all(|a| !matches!(a, WorkerAction::Io(IoAction::HttpResponse(_)))));
    let audio = track_id_builder("room1", MediaKind::Audio);
    let video = track_id_builder("room1", MediaKind::Video);
    for track in [audio, video] {
        let channel = worker.get_channel(track).expect("a channel");
        assert_eq!(channel.sources, vec![id]);
        assert!(channel.consumers.is_empty());
    }
    assert_eq!(worker.get_task(id).unwrap().pub_channels, vec![audio, video]);
    worker.dispatch(id, EngineOutput::Connected);
    worker.pop_tasks(0);
    assert_eq!(worker.get_channel(video).unwrap().sources, vec![id]);
    assert_eq!(worker.get_task(id).unwrap().pub_channels, vec![audio, video]);
}

#[test]
fn subscriber_gets_media_of_its_track() {
    let mut a = worker();
    let mut b = worker();
    let publisher = publish(&mut a, 1, "room1");
    a.dispatch(publisher, EngineOutput::Connected);
    a.pop_tasks(0);
    let subscriber = subscribe(&mut b, 2, "room1");
    b.dispatch(subscriber, EngineOutput::Connected);
    b.pop_tasks(0);
    let video = track_id_builder("room1", MediaKind::Video);
    let audio = track_id_builder("room1", MediaKind::Audio);
    assert_eq!(b.get_channel(video).unwrap().consumers, vec![subscriber]);
    assert_eq!(b.get_channel(audio).unwrap().consumers, vec![subscriber]);
    assert!(b.get_channel(video).unwrap().sources.is_empty());
    assert_eq!(b.get_task(subscriber).unwrap().sub_channels, vec![audio, video]);
    let mid: str0m::media::Mid = "1".into();
    b.dispatch(subscriber, EngineOutput::MediaAdded { mid, kind: MediaKind::Video });
    b.process_bus_recv(1, BusEvent::TrackMedia(media(video, 96, 42)));
    b.process_bus_recv(1, BusEvent::TrackMedia(media(video + 1, 96, 43)));
    a.process_bus_recv(1, BusEvent::TrackMedia(media(video, 96, 42)));
    assert_eq!(b.task_ids(), vec![subscriber]);
    assert_eq!(b.get_channel(video).unwrap().consumers, vec![subscriber]);
}

#[test]
fn keyframe_request_goes_over_the_bus_to_the_publisher() {
    let mut a = worker();
    let mut b = worker();
    let publisher = publish(&mut a, 1, "room1");
    a.dispatch(publisher, EngineOutput::Connected);
    a.pop_tasks(0);
    let subscriber = subscribe(&mut b, 2, "room1");
    let video = track_id_builder("room1", MediaKind::Video);
    let mid: str0m::media::Mid = "1".into();
    match b.dispatch(subscriber, EngineOutput::KeyframeRequest { mid, kind: KeyframeRequestKind::Fir }) {
        Some(WorkerAction::Bus(BusEvent::TrackKeyframeRequest(track_id, kind))) => {
            assert_eq!(track_id, video);
            assert_eq!(kind, KeyframeRequestKind::Fir);
            a.dispatch(publisher, EngineOutput::MediaAdded { mid, kind: MediaKind::Video });
            a.process_bus_recv(1, BusEvent::TrackKeyframeRequest(track_id, kind));
        }
        _ => panic!("the request goes on the bus"),
    }
    assert_eq!(a.get_channel(video).unwrap().sources, vec![publisher]);
}

#[test]
fn media_from_the_publisher_goes_on_the_bus() {
    let mut worker = worker();
    let id = publish(&mut worker, 1, "room1");
    let rtp = tiny_media_server::tasks::RtpData {
        seq_no: 42,
        time: str0m::media::MediaTime::from_secs(0),
        header: str0m::rtp::RtpHeader::default(),
        payload_type: 96,
        payload: vec![7],
        timestamp: 9,
    };
    match worker.dispatch(id, EngineOutput::RtpPacket(rtp)) {
        Some(WorkerAction::Bus(BusEvent::TrackMedia(media))) => {
            assert_eq!(media.track_id, track_id_builder("room1", MediaKind::Video));
            assert_eq!(media.seq_no, 42);
            assert_eq!(media.payload, vec![7]);
        }
        _ => panic!("media goes on the bus"),
    }
    let to = remote(9);
    match worker.dispatch(id, EngineOutput::Transmit { from: local(), to, buf: vec![1] }) {
        Some(WorkerAction::Io(IoAction::UdpSocketSend { to: t, buf, .. })) => {
            assert_eq!(t, to);
            assert_eq!(buf, vec![1]);
        }
        _ => panic!("a transmit goes out"),
    }
}

#[test]
fn ended_session_is_removed_with_every_entry() {
    let mut worker = worker();
    let id = publish(&mut worker, 1, "room1");
    let other = subscribe(&mut worker, 2, "room1");
    let ufrag = ufrag_of(&worker, id);
    let other_ufrag = ufrag_of(&worker, other);
    worker.process_udp(1, remote(1), &binding_request(&format!("{}:peer", ufrag)));
    worker.process_udp(1, remote(2), &binding_request(&format!("{}:peer", other_ufrag)));
    worker.dispatch(id, EngineOutput::Connected);
    worker.dispatch(other, EngineOutput::Connected);
    worker.pop_tasks(2);
    let audio = track_id_builder("room1", MediaKind::Audio);
    let video = track_id_builder("room1", MediaKind::Video);
    assert_eq!(worker.get_channel(video).unwrap().sources, vec![id]);
    assert_eq!(worker.get_channel(video).unwrap().consumers, vec![other]);

    assert!(worker
        .dispatch(id, EngineOutput::IceConnectionStateChange(IceState::Disconnected))
        .is_none());
    assert_eq!(worker.ended_tasks(), vec![id]);
    assert!(worker.pop_task(3, id).is_empty());
    assert!(worker.dispatch(id, EngineOutput::Connected).is_none());
    assert_eq!(worker.ended_tasks(), vec![id]);
    assert_eq!(worker.task_ids(), vec![id, other]);

    worker.pop_ended_tasks();
    assert_eq!(worker.task_ids(), vec![other]);
    assert!(worker.ended_tasks().is_empty());
    assert!(worker.get_task(id).is_none());
    assert_eq!(worker.ufrag_owner(&ufrag), None);
    assert_eq!(worker.remote_owner(remote(1)), None);
    assert_eq!(worker.ufrag_owner(&other_ufrag), Some(other));
    assert_eq!(worker.remote_owner(remote(2)), Some(other));
    for track in [audio, video] {
        let channel = worker.get_channel(track).expect("the subscriber keeps the channel");
        assert!(channel.sources.is_empty());
        assert_eq!(channel.consumers, vec![other]);
    }

    worker.dispatch(other, EngineOutput::IceConnectionStateChange(IceState::Disconnected));
    worker.pop_ended_tasks();
    assert!(worker.task_ids().is_empty());
    assert!(worker.get_channel(audio).is_none());
    assert!(worker.get_channel(video).is_none());
    assert_eq!(worker.remote_owner(remote(2)), None);
    assert_eq!(worker.ufrag_owner(&other_ufrag), None);
    worker.pop_ended_tasks();
    assert!(worker.task_ids().is_empty());
}

#[test]
fn datagram_from_unknown_remote_is_dropped() {
    let mut worker = worker();
    let id = publish(&mut worker, 1, "room1");
    assert!(worker.process_udp(1, remote(1), b"this is no stun message at all").is_empty());
    assert!(worker.process_udp(1, remote(1), &[]).is_empty());
    assert!(worker.process_udp(1, remote(1), &binding_request("nobody:peer")).is_empty());
    let mut unpadded = binding_request(&format!("{}:p", ufrag_of(&worker, id)));
    let cut = unpadded.len() - 1;
    unpadded.truncate(cut);
    assert!(worker.process_udp(1, remote(1), &unpadded).is_empty());
    assert_eq!(worker.remote_owner(remote(1)), None);
    assert!(worker.get_task(id).unwrap().remotes.is_empty());
    assert_eq!(worker.task_ids(), vec![id]);
}

#[test]
fn stun_binds_a_remote_to_its_session_once() {
    let mut worker = worker();
    let first = publish(&mut worker, 1, "room1");
    let second = publish(&mut worker, 2, "room2");
    let first_ufrag = ufrag_of(&worker, first);
    let second_ufrag = ufrag_of(&worker, second);
    worker.process_udp(1, remote(1), &binding_request(&format!("{}:peer", first_ufrag)));
    assert_eq!(worker.remote_owner(remote(1)), Some(first));
    assert_eq!(worker.get_task(first).unwrap().remotes, vec![remote(1)]);
    worker.process_udp(2, remote(1), &binding_request(&format!("{}:peer", second_ufrag)));
    assert_eq!(worker.remote_owner(remote(1)), Some(first));
    assert_eq!(worker.get_task(first).unwrap().remotes, vec![remote(1)]);
    assert!(worker.get_task(second).unwrap().remotes.is_empty());
    worker.process_udp(3, remote(1), b"not stun, but the remote is known");
    assert_eq!(worker.remote_owner(remote(1)), Some(first));
    worker.process_udp(4, remote(2), &binding_request(&format!("{}:peer", first_ufrag)));
    assert_eq!(worker.remote_owner(remote(2)), Some(first));
    assert_eq!(worker.get_task(first).unwrap().remotes, vec![remote(1), remote(2)]);
    worker.process_udp(5, remote(3), &binding_request(&second_ufrag));
    assert_eq!(worker.remote_owner(remote(3)), Some(second));
}

#[test]
fn tick_and_pop_keep_the_tables() {
    let mut worker = worker();
    let id = publish(&mut worker, 1, "room1");
    worker.dispatch(id, EngineOutput::Timeout(100));
    worker.process_tick(50);
    assert_eq!(worker.get_task(id).unwrap().task.state().timeout, Some(100));
    worker.process_tick(100);
    assert_eq!(worker.get_task(id).unwrap().task.state().timeout, None);
    let actions = worker.pop_tasks(101);
    assert!(actions.iter().all(|a| !matches!(a, WorkerAction::Io(IoAction::HttpResponse(_)))));
    assert_eq!(worker.task_ids(), vec![id]);
    assert_eq!(worker.ufrag_owner(&ufrag_of(&worker, id)), Some(id));
}

#[test]
fn cycle_sleeps_for_what_is_left_of_a_millisecond() {
    assert_eq!(Worker::cycle_sleep(0, 0), 1_000_000);
    assert_eq!(Worker::cycle_sleep(10, 250_010), 750_000);
    assert_eq!(Worker::cycle_sleep(10, 1_000_009), 1);
    assert_eq!(Worker::cycle_sleep(10, 1_000_010), 0);
    assert_eq!(Worker::cycle_sleep(10, 5_000_000), 0);
    assert_eq!(Worker::cycle_sleep(10, 9), 0);
}

#[test]
fn worker_with_a_given_certificate_is_empty() {
    let cert = tiny_media_server::tasks::engine::Certificate::generate().expect("a certificate");
    let mut worker = Worker::with_cert(remote(7), Instant::now(), cert);
    assert_eq!(worker.local_addr(), remote(7));
    assert_eq!(worker.task_id_seed(), 0);
    assert!(worker.task_ids().is_empty());
    assert!(worker.ended_tasks().is_empty());
    assert_eq!(worker.remote_owner(remote(7)), None);
    assert_eq!(worker.ufrag_owner(""), None);
    assert!(worker.get_channel(0).is_none());
    let actions = worker.process_http(0, request(1, "/whip/endpoint", "room1", offer("sendonly")));
    assert_one_response(&actions, 1, 200);
    assert_eq!(worker.task_ids(), vec![0]);
}

#[test]
fn drain_records_every_waiting_notice() {
    let mut worker = worker();
    let publisher = publish(&mut worker, 1, "room1");
    let subscriber = subscribe(&mut worker, 2, "room1");
    worker.dispatch(publisher, EngineOutput::Connected);
    worker.dispatch(subscriber, EngineOutput::Connected);
    assert_eq!(worker.get_task(publisher).unwrap().task.state().outputs.len(), 2);
    assert_eq!(worker.get_task(subscriber).unwrap().task.state().outputs.len(), 2);
    let audio = track_id_builder("room1", MediaKind::Audio);
    let video = track_id_builder("room1", MediaKind::Video);
    assert!(worker.get_channel(audio).is_none());

    worker.pop_task(0, publisher);
    assert!(worker.get_task(publisher).unwrap().task.state().outputs.is_empty());
    for track in [audio, video] {
        assert_eq!(worker.get_channel(track).unwrap().sources, vec![publisher]);
        assert!(worker.get_channel(track).unwrap().consumers.is_empty());
    }
    assert_eq!(worker.get_task(publisher).unwrap().pub_channels, vec![audio, video]);
    assert!(worker.get_task(subscriber).unwrap().sub_channels.is_empty());

    worker.pop_task(0, subscriber);
    assert!(worker.get_task(subscriber).unwrap().task.state().outputs.is_empty());
    for track in [audio, video] {
        assert_eq!(worker.get_channel(track).unwrap().sources, vec![publisher]);
        assert_eq!(worker.get_channel(track).unwrap().consumers, vec![subscriber]);
    }
    assert_eq!(worker.get_task(subscriber).unwrap().sub_channels, vec![audio, video]);
    assert!(worker.get_task(subscriber).unwrap().pub_channels.is_empty());
}
