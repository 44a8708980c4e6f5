use chat_transport::handshake::{
    fresh_key, host_of, request_uri, websocket_key, Authority, HandshakeRequest, MAX_ATTEMPTS,
    RETRY_DELAY_SECS,
};

fn pairs(lines: &Vec<(String, String)>) -> Vec<(&str, &str)> {
    lines.iter().map(|line| (line.0.as_str(), line.1.as_str())).collect()
}

#[test]
fn retry_policy_is_three_attempts_one_second_apart() {
    assert_eq!(MAX_ATTEMPTS, 3);
    assert_eq!(RETRY_DELAY_SECS, 1);
}

#[test]
fn request_uri_adds_the_path_and_the_token() {
    assert_eq!(request_uri("ws://3ye.co:32000", "abc123"), "ws://3ye.co:32000/ws?token=abc123");
    assert_eq!(request_uri("", ""), "/ws?token=");
}

#[test]
fn host_header_names_the_host_and_the_port() {
    let authority = Authority { host: Some("3ye.co".to_string()), port: Some(32000) };
    assert_eq!(host_of(&authority), "3ye.co:32000");
    let authority = Authority { host: Some("example.com".to_string()), port: None };
    assert_eq!(host_of(&authority), "example.com");
    let authority = Authority { host: None, port: None };
    assert_eq!(host_of(&authority), "localhost");
    let authority = Authority { host: None, port: Some(0) };
    assert_eq!(host_of(&authority), "localhost:0");
    let authority = Authority { host: Some("h".to_string()), port: Some(65535) };
    assert_eq!(host_of(&authority), "h:65535");
}

#[test]
fn websocket_key_is_the_base64_of_the_bytes() {
    let zeros = [0u8; 16];
    assert_eq!(websocket_key(&zeros), "AAAAAAAAAAAAAAAAAAAAAA==");
    let bytes: [u8; 16] = [1, 2, 3, 4, 5, 6, 7, 8, 9, 10, 11, 12, 13, 14, 15, 16];
    assert_eq!(websocket_key(&bytes), "AQIDBAUGBwgJCgsMDQ4PEA==");
    let ones = [255u8; 16];
    assert_eq!(websocket_key(&ones), "/////////////////////w==");
}

#[test]
#[allow(deprecated)]
fn fresh_key_is_the_base64_of_sixteen_bytes() {
    let key = fresh_key();
    assert_eq!(key.len(), 24);
    let bytes = base64::decode(&key).unwrap();
    assert_eq!(bytes.len(), 16);
}

#[test]
fn fresh_keys_differ_from_one_another() {
    let first = fresh_key();
    let second = fresh_key();
    let third = fresh_key();
    assert!(first != second || second != third);
}

#[test]
fn build_reads_host_and_port_from_the_url() {
    let request = HandshakeRequest::build("ws://3ye.co:32000", "tok", "KEY".to_string()).unwrap();
    assert_eq!(request.uri, "ws://3ye.co:32000/ws?token=tok");
    assert_eq!(request.host, "3ye.co:32000");
    assert_eq!(request.key, "KEY");
}

#[test]
fn build_leaves_out_a_port_that_the_url_does_not_name() {
    let request = HandshakeRequest::build("ws://chat.example.org", "t", "K".to_string()).unwrap();
    assert_eq!(request.host, "chat.example.org");
    let request = HandshakeRequest::build("ws://chat.example.org:80", "t", "K".to_string()).unwrap();
    assert_eq!(request.host, "chat.example.org");
    let request = HandshakeRequest::build("wss://chat.example.org:443", "t", "K".to_string()).unwrap();
    assert_eq!(request.host, "chat.example.org");
    let request = HandshakeRequest::build("wss://chat.example.org:8443", "t", "K".to_string()).unwrap();
    assert_eq!(request.host, "chat.example.org:8443");
    let request = HandshakeRequest::build("ws://127.0.0.1:9001", "t", "K".to_string()).unwrap();
    assert_eq!(request.host, "127.0.0.1:9001");
    let request = HandshakeRequest::build("ws://EXAMPLE.com:81", "t", "K".to_string()).unwrap();
    assert_eq!(request.host, "example.com:81");
}

#[test]
fn build_falls_back_to_localhost_where_the_url_has_no_host() {
    let request = HandshakeRequest::build("unix:/run/chat.socket", "t", "K".to_string()).unwrap();
    assert_eq!(request.host, "localhost");
    assert_eq!(request.uri, "unix:/run/chat.socket/ws?token=t");
}

#[test]
fn build_refuses_what_is_no_absolute_url() {
    assert_eq!(HandshakeRequest::build("not a url", "t", "K".to_string()), None);
    assert_eq!(HandshakeRequest::build("", "t", "K".to_string()), None);
    assert_eq!(HandshakeRequest::build("//3ye.co:32000", "t", "K".to_string()), None);
    assert_eq!(HandshakeRequest::build("ws://[::1", "t", "K".to_string()), None);
    assert_eq!(HandshakeRequest::build("ws://host:99999", "t", "K".to_string()), None);
}

#[test]
fn headers_are_the_five_of_an_upgrade_request() {
    let request = HandshakeRequest::build("ws://3ye.co:32000", "tok", "a2V5".to_string()).unwrap();
    let lines = request.headers();
    assert_eq!(
        pairs(&lines),
        vec![
            ("Host", "3ye.co:32000"),
            ("Connection", "Upgrade"),
            ("Upgrade", "websocket"),
            ("Sec-WebSocket-Version", "13"),
            ("Sec-WebSocket-Key", "a2V5"),
        ]
    );
}
