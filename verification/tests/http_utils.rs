use xproxy::http_utils::{
    decode, decode_text, get_header_value, make_connection_response, Host, HttpError, Method,
    Payload, Property, Proto,
};

fn domain(p: &Payload) -> String {
    match &p.http_header.host {
        Host::domain(d) => d.clone(),
        other => panic!("no domain: {:?}", other),
    }
}

#[test]
fn decode_connect_request() {
    let p = decode(b"CONNECT example.com:443 HTTP/1.1\r\nHost: example.com:443\r\n\r\n").unwrap();
    assert_eq!(p.http_header.method, Method::CONNECT);
    assert_eq!(p.http_header.protocol, Proto::NULL);
    assert_eq!(domain(&p), "example.com");
    assert_eq!(p.http_header.port, 443);
    assert_eq!(p.http_header.path, "");
    assert_eq!(p.http_header.version, 0x11);
    assert_eq!(p.headers.len(), 1);
    assert_eq!(p.headers[0].0, "Host");
    assert_eq!(p.headers[0].1, "example.com");
    assert_eq!(p.data, "\n");
}

#[test]
fn decode_get_request_with_body() {
    let p = decode(b"POST http://example.com/submit HTTP/1.1\r\nContent-Type: text/plain\r\nX-A: b\r\n\r\nline one\r\nline two").unwrap();
    assert_eq!(p.http_header.method, Method::POST);
    assert_eq!(p.http_header.protocol, Proto::HTTP);
    assert_eq!(domain(&p), "example.com");
    assert_eq!(p.http_header.port, 80);
    assert_eq!(p.http_header.path, "/submit");
    assert_eq!(p.headers.len(), 1);
    assert_eq!(p.headers[0].0, "Content-Type");
    assert_eq!(p.headers[0].1, "text/plain");
    assert_eq!(p.data, "line one\r\nline two\n");
}

#[test]
fn decode_https_default_port() {
    let p = decode(b"GET https://secure.example.org/a/b HTTP/1.1\r\n\r\n").unwrap();
    assert_eq!(p.http_header.protocol, Proto::HTTPS);
    assert_eq!(domain(&p), "secure.example.org");
    assert_eq!(p.http_header.port, 443);
    assert_eq!(p.http_header.path, "/a/b");
}

#[test]
fn decode_path_after_last_dot_only() {
    let p = decode(b"GET http://example.com/index.html HTTP/1.1\r\n").unwrap();
    assert_eq!(p.http_header.path, "");
    let p = decode(b"GET http://example.com/ HTTP/1.1\r\n").unwrap();
    assert_eq!(p.http_header.path, "/");
    let p = decode(b"GET http://example.com:8080/x:12y HTTP/1.1\r\n").unwrap();
    assert_eq!(p.http_header.path, "/xy");
}

#[test]
fn decode_port_forms() {
    let p = decode(b"GET http://example.com:8080/ HTTP/1.1").unwrap();
    assert_eq!(p.http_header.port, 8080);
    // a single digit is not taken for a port
    let p = decode(b"GET http://example.com:8/ HTTP/1.1").unwrap();
    assert_eq!(p.http_header.port, 80);
    assert_eq!(domain(&p), "example.com");
    // digits glued to the name make no number
    let p = decode(b"GET http://localhost8080/ HTTP/1.1").unwrap();
    assert_eq!(p.http_header.port, 0);
    // a port beyond u16
    let p = decode(b"CONNECT example.com:70000 HTTP/1.1").unwrap();
    assert_eq!(p.http_header.port, 0);
    assert_eq!(domain(&p), "example.com");
}

#[test]
fn decode_websocket_schemes() {
    let p = decode(b"GET ws://chat.example.com/ HTTP/1.1").unwrap();
    assert_eq!(p.http_header.protocol, Proto::WS);
    let p = decode(b"GET wss://chat.example.com/ HTTP/1.1").unwrap();
    assert_eq!(p.http_header.protocol, Proto::WSS);
    assert_eq!(p.http_header.port, 80);
}

#[test]
fn decode_unknown_method_and_no_target() {
    let p = decode(b"PUT").unwrap();
    assert_eq!(p.http_header.method, Method::NULL);
    assert!(matches!(p.http_header.host, Host::NULL));
    assert_eq!(p.http_header.port, 0);
    assert_eq!(p.http_header.version, 0);
    let p = decode(b"").unwrap();
    assert_eq!(p.http_header.method, Method::NULL);
}

#[test]
fn decode_refuses_long_request_line() {
    assert!(matches!(decode(b"GET / HTTP/1.1 extra\r\n"), Err(HttpError::InvalidHttpHeader)));
    assert!(matches!(decode(b"GET  / HTTP/1.1\r\n"), Err(HttpError::InvalidHttpHeader)));
}

#[test]
fn decode_header_values() {
    let p = decode(b"GET / HTTP/1.1\r\nA: x\r\nB:   spaced value  \r\nC\r\nD: ee:f\r\nE:\r\n\r\n").unwrap();
    // "A: x" has a one-character value and is dropped; "C" has no colon;
    // "D" keeps the text before its second colon; "E" has no value.
    assert_eq!(p.headers.len(), 2);
    assert_eq!(p.headers[0].0, "B");
    assert_eq!(p.headers[0].1, "spaced value  ");
    assert_eq!(p.headers[1].0, "D");
    assert_eq!(p.headers[1].1, "ee");
}

#[test]
fn decode_without_carriage_returns_never_ends_headers() {
    let p = decode(b"GET / HTTP/1.1\nHost: ab\n\nbody").unwrap();
    assert_eq!(p.headers.len(), 1);
    assert_eq!(p.headers[0].1, "ab");
    assert_eq!(p.data, "");
}

#[test]
fn decode_invalid_utf8_is_replaced() {
    let p = decode(b"GET / HTTP/1.1\r\n\r\n\xff\xfe ok").unwrap();
    assert_eq!(p.data, "\u{fffd}\u{fffd} ok\n");
}

#[test]
fn decode_text_matches_decode() {
    let t = "CONNECT a.b:9000 HTTP/1.1\r\nX: yz\r\n\r\n";
    let a = decode_text(t).unwrap();
    let b = decode(t.as_bytes()).unwrap();
    assert_eq!(format!("{:?}", a), format!("{:?}", b));
}

#[test]
fn header_lookup_ignores_case() {
    let headers = vec![
        Property("Content-Type".to_string(), "text/html".to_string()),
        Property("HOST".to_string(), "first".to_string()),
        Property("host".to_string(), "second".to_string()),
    ];
    assert_eq!(get_header_value(headers.clone(), "host"), Some("first".to_string()));
    assert_eq!(get_header_value(headers.clone(), "content-TYPE"), Some("text/html".to_string()));
    assert_eq!(get_header_value(headers, "Accept"), None);
}

#[test]
fn connection_response_text() {
    assert_eq!(
        make_connection_response(200, true),
        "HTTP/1.1 200 Connection established\r\nProxy-Agent: Xproxy/1.0\r\n\r\n"
    );
    assert_eq!(
        make_connection_response(502, false),
        "HTTP/1.1 502 Connection failed\r\nProxy-Agent: Xproxy/1.0\r\n\r\n"
    );
}

#[test]
fn defaults_are_null() {
    let p = Payload::default();
    assert_eq!(p.http_header.method, Method::NULL);
    assert_eq!(p.http_header.protocol, Proto::NULL);
    assert!(matches!(p.http_header.host, Host::NULL));
    assert_eq!(p.http_header.port, 0);
    assert!(p.headers.is_empty());
    assert_eq!(p.data, "");
}
