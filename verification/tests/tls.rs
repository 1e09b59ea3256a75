use xproxy::tls::cert::{decodeX509, subject_alt_name};
use xproxy::tls::utils::isIp;

#[test]
fn is_ip_dotted_quad() {
    assert!(isIp("192.168.0.1".to_string()));
    assert!(isIp("10.0.0.255".to_string()));
}

#[test]
fn is_ip_domain_names() {
    assert!(!isIp("example.com".to_string()));
    assert!(!isIp("www.example.co.uk".to_string()));
    assert!(!isIp("".to_string()));
}

#[test]
fn is_ip_needs_three_dots_before_other_characters() {
    assert!(!isIp("1.2.3".to_string()));
    assert!(isIp("1.2.3.x".to_string()));
    assert!(isIp("...".to_string()));
    assert!(!isIp("1.2a.3.4".to_string()));
}

#[test]
fn is_ip_reads_the_low_byte_of_characters() {
    // U+0131 has low byte 0x31, the digit '1'.
    assert!(isIp("\u{131}.1.1.1".to_string()));
}

#[test]
fn subject_alt_name_kinds() {
    assert_eq!(subject_alt_name("10.1.2.3"), "IP:10.1.2.3");
    assert_eq!(subject_alt_name("example.com"), "DNS:example.com");
}

#[test]
fn decode_x509_rejects_garbage() {
    assert!(decodeX509("not a certificate".to_string()).is_err());
}
