use cranker_connector::socket::{status_line, ConnectorSocket, SocketAction, SocketMessage};

fn socket() -> ConnectorSocket {
    ConnectorSocket::new(
        "connector-1".to_string(),
        "wss://localhost:12001".to_string(),
        "http://localhost:8080".to_string(),
        "rust-testing-component".to_string(),
        "*".to_string(),
    )
}

fn is_uuid(s: &str) -> bool {
    s.len() == 36
        && s.chars().enumerate().all(|(i, c)| {
            if i == 8 || i == 13 || i == 18 || i == 23 {
                c == '-'
            } else {
                c.is_ascii_digit() || ('a'..='f').contains(&c)
            }
        })
}

#[test]
fn new_socket_has_random_hyphenated_id() {
    let a = socket();
    let b = socket();
    assert!(is_uuid(&a.socket_id));
    assert!(is_uuid(&b.socket_id));
    assert_eq!(a.socket_id.chars().nth(14), Some('4'));
    assert!(matches!(a.socket_id.chars().nth(19), Some('8' | '9' | 'a' | 'b')));
    assert_ne!(a.socket_id, b.socket_id);
    assert!(!a.state.consumed && !a.state.body_writer_open && !a.state.response_pending);
}

#[test]
fn register_url_names_connector_and_component() {
    assert_eq!(
        socket().register_url(),
        "wss://localhost:12001/register?connectorInstanceID=connector-1&componentName=rust-testing-component"
    );
}

#[test]
fn handshake_request_headers() {
    let s = socket();
    let head = s.handshake_request("dGhlIHNhbXBsZSBub25jZQ==");
    assert_eq!(head.method, "GET");
    assert_eq!(head.uri, s.register_url());
    let pairs: Vec<(String, String)> =
        head.headers.iter().map(|h| (h.name.clone(), h.value.clone())).collect();
    let expected: Vec<(String, String)> = vec![
        ("Host", "localhost"),
        ("Connection", "Upgrade"),
        ("Upgrade", "websocket"),
        ("CrankerProtocol", "1.0"),
        ("Route", "*"),
        ("Sec-WebSocket-Version", "13"),
        ("Sec-WebSocket-Key", "dGhlIHNhbXBsZSBub25jZQ=="),
    ]
    .into_iter()
    .map(|(a, b)| (a.to_string(), b.to_string()))
    .collect();
    assert_eq!(pairs, expected);
    let request = head.into_builder().body(()).unwrap();
    assert_eq!(request.headers()["upgrade"], "websocket");
}

#[test]
fn status_line_writes_the_code_in_decimal() {
    assert_eq!(status_line(200), "HTTP/1.1 200 OK\n");
    assert_eq!(status_line(404), "HTTP/1.1 404 OK\n");
    assert_eq!(status_line(0), "HTTP/1.1 0 OK\n");
    assert_eq!(status_line(7), "HTTP/1.1 7 OK\n");
    assert_eq!(status_line(65535), "HTTP/1.1 65535 OK\n");
}

#[test]
fn first_text_message_consumes_the_socket_once() {
    let mut s = socket();
    let step = s.on_message(SocketMessage::Ping);
    assert!(!step.notify_consumed);
    assert!(matches!(step.action, SocketAction::Ignore));
    let step = s.on_message(SocketMessage::Text("GET /hello HTTP/1.1\nA:b\n\n_2".to_string()));
    assert!(step.notify_consumed);
    match step.action {
        SocketAction::SendRequest(head) => {
            assert_eq!(head.method, "GET");
            assert_eq!(head.uri, "http://localhost:8080/hello");
            assert_eq!(head.headers.len(), 1);
        }
        _ => panic!("expected a request without body"),
    }
    let step = s.on_message(SocketMessage::Text("GET /again HTTP/1.1\n_2".to_string()));
    assert!(!step.notify_consumed);
    assert!(s.state.consumed);
}

#[test]
fn streamed_request_then_body_then_end() {
    let mut s = socket();
    let step = s.on_message(SocketMessage::Binary);
    assert!(matches!(step.action, SocketAction::Ignore));
    let step = s.on_message(SocketMessage::Text("POST /post HTTP/1.1\nContent-Length:3\n\n_1".to_string()));
    assert!(step.notify_consumed);
    assert!(matches!(step.action, SocketAction::StreamRequest(_)));
    assert!(s.state.body_writer_open && s.state.response_pending);
    let step = s.on_message(SocketMessage::Binary);
    assert!(matches!(step.action, SocketAction::ForwardBody));
    assert!(s.accepts(&SocketMessage::Text("_3".to_string())));
    let step = s.on_message(SocketMessage::Text("_3".to_string()));
    assert!(matches!(step.action, SocketAction::AwaitResponse));
    assert!(!s.state.response_pending);
    assert!(!s.accepts(&SocketMessage::Text("_3".to_string())));
}

#[test]
fn other_messages_and_failures() {
    let mut s = socket();
    for m in [SocketMessage::Pong, SocketMessage::Close, SocketMessage::Frame] {
        let step = s.on_message(m);
        assert!(!step.notify_consumed);
        assert!(matches!(step.action, SocketAction::Ignore));
    }
    let step = s.on_message(SocketMessage::Text("no marker".to_string()));
    assert!(step.notify_consumed);
    assert!(matches!(step.action, SocketAction::Ignore));
    let step = s.on_message(SocketMessage::Failed);
    assert!(matches!(step.action, SocketAction::Stop));
}

#[test]
fn accepts_rejects_request_without_path() {
    let s = socket();
    assert!(!s.accepts(&SocketMessage::Text("GET\n_2".to_string())));
    assert!(!s.accepts(&SocketMessage::Text("GET\n_1".to_string())));
    assert!(s.accepts(&SocketMessage::Text("GET\n_4".to_string())));
    assert!(!s.accepts(&SocketMessage::Text("_3".to_string())));
    assert!(s.accepts(&SocketMessage::Binary));
}
