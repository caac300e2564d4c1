use tiny_media_server::io::{Headers, NetAddr};

#[test]
fn headers_start_empty() {
    let headers = Headers::new();
    assert_eq!(headers.len(), 0);
    assert!(headers.get(&"Location".to_string()).is_none());
}

#[test]
fn headers_insert_then_get() {
    let mut headers = Headers::new();
    headers.insert("Content-Type".to_string(), "application/sdp".to_string());
    headers.insert("Location".to_string(), "/whip/endpoint/1234".to_string());
    assert_eq!(headers.len(), 2);
    assert_eq!(
        headers.get(&"Content-Type".to_string()),
        Some(&"application/sdp".to_string())
    );
    assert_eq!(
        headers.get(&"Location".to_string()),
        Some(&"/whip/endpoint/1234".to_string())
    );
    assert!(headers.get(&"content-type".to_string()).is_none());
}

#[test]
fn headers_insert_replaces_value() {
    let mut headers = Headers::new();
    headers.insert("Authorization".to_string(), "room1".to_string());
    headers.insert("Other".to_string(), "x".to_string());
    headers.insert("Authorization".to_string(), "room2".to_string());
    assert_eq!(headers.len(), 2);
    assert_eq!(
        headers.get(&"Authorization".to_string()),
        Some(&"room2".to_string())
    );
    let (name, value) = headers.entry(0);
    assert_eq!(name, "Authorization");
    assert_eq!(value, "room2");
    let (name, value) = headers.entry(1);
    assert_eq!(name, "Other");
    assert_eq!(value, "x");
}

#[test]
fn net_addr_equality_is_by_fields() {
    let a = NetAddr::V4 { ip: 0x7f00_0001, port: 4000 };
    let b = NetAddr::V4 { ip: 0x7f00_0001, port: 4000 };
    let c = NetAddr::V4 { ip: 0x7f00_0001, port: 4001 };
    let d = NetAddr::V6 { ip: 1, port: 4000 };
    assert_eq!(a, b);
    assert_ne!(a, c);
    assert_ne!(a, d);
}
