use xproxy::proxy::{handle_client, listen_address, route, ClientAction};
use xproxy::http_utils::decode;

#[test]
fn connect_is_tunnelled() {
    match handle_client(b"CONNECT example.com:8443 HTTP/1.1\r\nHost: example.com\r\n\r\n") {
        ClientAction::Tunnel { reply, host, port } => {
            assert_eq!(reply, "HTTP/1.1 200 Connection established\r\nProxy-Agent: Xproxy/1.0\r\n\r\n");
            assert_eq!(host, "example.com");
            assert_eq!(port, 8443);
        },
        _ => panic!("not tunnelled"),
    }
}

#[test]
fn get_is_forwarded() {
    match handle_client(b"GET http://example.com:8080/index HTTP/1.1\r\n\r\n") {
        ClientAction::Forward { host, port } => {
            assert_eq!(host, "example.com");
            assert_eq!(port, 8080);
        },
        _ => panic!("not forwarded"),
    }
    match handle_client(b"POST http://example.com/form HTTP/1.1\r\n\r\n") {
        ClientAction::Forward { host, port } => {
            assert_eq!(host, "example.com");
            assert_eq!(port, 80);
        },
        _ => panic!("not forwarded"),
    }
}

#[test]
fn unknown_requests_are_ignored() {
    assert!(matches!(handle_client(b"PUT http://example.com/ HTTP/1.1\r\n"), ClientAction::Ignore));
    assert!(matches!(handle_client(b"hello"), ClientAction::Ignore));
    assert!(matches!(handle_client(b"GET / HTTP/1.1 x y\r\n"), ClientAction::Ignore));
    assert!(matches!(handle_client(b""), ClientAction::Ignore));
}

#[test]
fn route_of_decoded_payload() {
    let p = decode(b"CONNECT h.example:443 HTTP/1.1").unwrap();
    assert!(matches!(route(p), ClientAction::Tunnel { port: 443, .. }));
}

#[test]
fn listen_address_text() {
    assert_eq!(listen_address(), "0.0.0.0:1080");
}
