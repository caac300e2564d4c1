use tiny_media_server::controller::Controller;
use tiny_media_server::io::{Headers, HttpRequest, IoEvent, NetAddr};

fn request(req_id: u64) -> HttpRequest {
    HttpRequest {
        req_id,
        method: "POST".to_string(),
        path: "/whip/endpoint".to_string(),
        headers: Headers::new(),
        body: Vec::new(),
    }
}

#[test]
fn requests_go_round_the_workers() {
    let mut controller = Controller::new(3);
    for count in 0..10u64 {
        let (slot, req) = controller.input(IoEvent::HttpRequest(request(count))).unwrap();
        assert_eq!(slot as u64, count % 3);
        assert_eq!(req.req_id, count);
    }
}

#[test]
fn single_worker_gets_everything() {
    let mut controller = Controller::new(1);
    for count in 0..4 {
        let (slot, _) = controller.input(IoEvent::HttpRequest(request(count))).unwrap();
        assert_eq!(slot, 0);
    }
}

#[test]
fn datagrams_are_not_routed() {
    let mut controller = Controller::new(2);
    let addr = NetAddr::V4 { ip: 1, port: 2 };
    let buf = [1u8, 2, 3];
    assert!(controller
        .input(IoEvent::UdpSocketRecv { from: addr, to: addr, buf: &buf })
        .is_none());
    let (slot, _) = controller.input(IoEvent::HttpRequest(request(0))).unwrap();
    assert_eq!(slot, 0);
}
