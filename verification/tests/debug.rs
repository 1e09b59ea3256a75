use xproxy::debug::{debug_enabled, log_enabled, request_summary};
use xproxy::http_utils::decode;

#[test]
fn debug_flags_need_every_bit() {
    assert!(debug_enabled(0b0001_0000, 0b0001_0000));
    assert!(!debug_enabled(0b0001_0000, 0b0100_0000));
    assert!(debug_enabled(0b1111_0000, 0b0101_0000));
    assert!(!debug_enabled(0b0100_0000, 0b0101_0000));
}

#[test]
fn log_all_bits_always_printed() {
    assert!(log_enabled(0, 0xFF));
    assert!(!log_enabled(0, 0b0000_0010));
    assert!(log_enabled(0b0000_0010, 0b0000_0010));
}

#[test]
fn request_summary_names_method_host_port() {
    let p = decode(b"GET http://example.com:8080/x HTTP/1.1\r\n\r\n").unwrap();
    assert_eq!(request_summary(&p), Some("GET example.com:8080".to_string()));
}

#[test]
fn request_summary_without_domain_is_none() {
    let p = decode(b"GET").unwrap();
    assert_eq!(request_summary(&p), None);
}
