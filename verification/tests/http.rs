use tiny_media_server::http::get_http_auth;
use tiny_media_server::io::{Headers, HttpRequest};

fn request(headers: Headers) -> HttpRequest {
    HttpRequest {
        req_id: 7,
        method: "POST".to_string(),
        path: "/whip/endpoint".to_string(),
        headers,
        body: Vec::new(),
    }
}

#[test]
fn auth_reads_canonical_header() {
    let mut headers = Headers::new();
    headers.insert("Authorization".to_string(), "room1".to_string());
    headers.insert("authorization".to_string(), "other".to_string());
    assert_eq!(get_http_auth(&request(headers)), "room1");
}

#[test]
fn auth_falls_back_to_lowercase_header() {
    let mut headers = Headers::new();
    headers.insert("authorization".to_string(), "room2".to_string());
    assert_eq!(get_http_auth(&request(headers)), "room2");
}

#[test]
fn auth_defaults_to_demo() {
    assert_eq!(get_http_auth(&request(Headers::new())), "demo");
}
