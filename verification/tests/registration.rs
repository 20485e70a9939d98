use cranker_connector::connector::{ConnectorConfig, CrankerConnector};
use cranker_connector::registration::{RegistrationEvent, RouterRegistration};

fn registration(window: usize) -> RouterRegistration {
    RouterRegistration::new(
        "connector-1".to_string(),
        "wss://localhost:12001".to_string(),
        "http://localhost:8080".to_string(),
        "component".to_string(),
        "*".to_string(),
        window,
    )
}

#[test]
fn starting_missing_sockets_fills_the_window() {
    let mut r = registration(3);
    assert_eq!(r.missing_sockets(), 3);
    let mut ids = Vec::new();
    while r.missing_sockets() > 0 {
        let s = r.start_socket();
        assert_eq!(s.registration_uri, "wss://localhost:12001");
        assert_eq!(s.target_uri, "http://localhost:8080");
        ids.push(s.socket_id);
    }
    assert_eq!(ids.len(), 3);
    assert_eq!(r.idle_sockets.len(), 3);
}

#[test]
fn consumed_and_failed_sockets_are_replaced() {
    let mut r = registration(2);
    let a = r.start_socket().socket_id;
    let b = r.start_socket().socket_id;
    assert_eq!(r.missing_sockets(), 0);
    assert!(r.on_event(RegistrationEvent::SocketConsumed(a.clone())));
    assert_eq!(r.missing_sockets(), 1);
    assert!(r.on_event(RegistrationEvent::SocketError(b)));
    assert_eq!(r.missing_sockets(), 2);
    assert!(r.on_event(RegistrationEvent::SocketConsumed(a)));
    assert_eq!(r.missing_sockets(), 2);
}

#[test]
fn create_open_and_init_events() {
    let mut r = registration(1);
    assert!(r.on_event(RegistrationEvent::RegistrationInit));
    assert!(!r.on_event(RegistrationEvent::SocketCreate("x".to_string())));
    assert_eq!(r.missing_sockets(), 0);
    assert!(!r.on_event(RegistrationEvent::SocketCreate("x".to_string())));
    assert_eq!(r.idle_sockets.len(), 1);
    assert!(!r.on_event(RegistrationEvent::SocketOpen("x".to_string())));
    assert_eq!(r.idle_sockets.len(), 1);
}

#[test]
fn window_of_zero_needs_no_socket() {
    let r = registration(0);
    assert_eq!(r.missing_sockets(), 0);
}

#[test]
fn connector_registers_at_each_router() {
    let c = CrankerConnector::new(ConnectorConfig {
        route: "*".to_string(),
        target_uri: "http://localhost:8080".to_string(),
        component_name: "rust-testing-component".to_string(),
        sliding_window: 1,
    });
    assert_eq!(c.connector_instance_id.len(), 36);
    assert_eq!(c.connector_instance_id.chars().nth(14), Some('4'));
    let uris = vec!["wss://a:1".to_string(), "wss://b:2".to_string()];
    let rs = c.router_registrations(&uris);
    assert_eq!(rs.len(), 2);
    assert_eq!(rs[0].registration_uri, "wss://a:1");
    assert_eq!(rs[1].registration_uri, "wss://b:2");
    assert_eq!(rs[1].connector_instance_id, c.connector_instance_id);
    assert_eq!(rs[0].sliding_window, 1);
    assert_eq!(rs[0].missing_sockets(), 1);
}

#[test]
fn fill_window_starts_every_missing_socket() {
    let mut r = registration(4);
    r.on_event(RegistrationEvent::SocketCreate("already-idle".to_string()));
    let sockets = r.fill_window();
    assert_eq!(sockets.len(), 3);
    assert_eq!(r.missing_sockets(), 0);
    assert_eq!(r.idle_sockets.len(), 4);
    for s in &sockets {
        assert_eq!(s.route, "*");
        assert_eq!(s.socket_id.chars().nth(14), Some('4'));
        assert!(matches!(s.socket_id.chars().nth(19), Some('8' | '9' | 'a' | 'b')));
    }
    assert!(r.fill_window().is_empty());
}

#[test]
fn second_fill_starts_nothing() {
    let mut r = registration(2);
    let first = r.fill_window();
    assert_eq!(first.len(), 2);
    let second = r.fill_window();
    assert!(second.is_empty());
    assert_eq!(r.idle_sockets.len(), 2);
}
