//! The laws of the library on concrete requests.
use xproxy::connection::server_address;
use xproxy::http_utils::{get_header_value, Property};
use xproxy::proxy::{handle_client, ClientAction};

#[test]
fn port_numerals_read_back() {
    for port in [10u16, 80, 443, 8080, 65535] {
        let addr = server_address("example.com", port);
        let request = format!("CONNECT {} HTTP/1.1\r\n\r\n", addr);
        match handle_client(request.as_bytes()) {
            ClientAction::Tunnel { port: p, host, .. } => {
                assert_eq!(p, port);
                assert_eq!(host, "example.com");
            },
            _ => panic!("not tunnelled"),
        }
    }
}

#[test]
fn connect_law_on_an_ip_host() {
    match handle_client(b"CONNECT 10.1.2.3:993 HTTP/1.0\r\nUser-Agent: t\r\n\r\nrest") {
        ClientAction::Tunnel { host, port, .. } => {
            assert_eq!(host, "10.1.2.3");
            assert_eq!(port, 993);
        },
        _ => panic!("not tunnelled"),
    }
}

#[test]
fn connect_law_fails_for_single_digit_ports() {
    match handle_client(b"CONNECT example.com:8 HTTP/1.1\r\n\r\n") {
        ClientAction::Tunnel { port, .. } => assert_eq!(port, 80),
        _ => panic!("not tunnelled"),
    }
}

#[test]
fn get_law_on_a_path() {
    match handle_client(b"GET http://shop.example:8000/cart/items?id=7 HTTP/1.1\r\n\r\n") {
        ClientAction::Forward { host, port } => {
            assert_eq!(host, "shop.example");
            assert_eq!(port, 8000);
        },
        _ => panic!("not forwarded"),
    }
}

#[test]
fn body_is_kept_after_blank_line() {
    let p = xproxy::http_utils::decode(b"GET / HTTP/1.1\n\r\nfirst\nsecond\r\n\r\nthird").unwrap();
    assert!(p.headers.is_empty());
    assert_eq!(p.data, "first\nsecond\r\n\r\nthird\n");
}

#[test]
fn dotted_numbers_are_ip_hosts() {
    assert!(xproxy::tls::utils::isIp("1.22.333.example".to_string()));
    assert_eq!(xproxy::tls::cert::subject_alt_name("127.0.0.1"), "IP:127.0.0.1");
}

#[test]
fn header_lookup_same_lowercase_same_value() {
    let headers = vec![Property("X-Token".to_string(), "abc".to_string())];
    assert_eq!(get_header_value(headers.clone(), "x-token"), get_header_value(headers, "X-TOKEN"));
}
