//! The request grammar checked against the regular expressions it stands
//! for, run by the `regex` crate over many request targets and values.
use regex::Regex;
use xproxy::grammar::{header_value, host_name, path_text, port_number, protocol};
use xproxy::http_utils::Proto;

fn chars(s: &str) -> Vec<char> {
    s.chars().collect()
}

fn text(v: &[char]) -> String {
    v.iter().collect()
}

struct Patterns {
    path: Regex,
    proto: Regex,
    host_port: Regex,
    port: Regex,
}

fn patterns() -> Patterns {
    Patterns {
        path: Regex::new("(\\/.*)$").unwrap(),
        proto: Regex::new("^(.*:\\/\\/)").unwrap(),
        host_port: Regex::new("(:\\d+)$").unwrap(),
        port: Regex::new("([^:.]\\d+)$").unwrap(),
    }
}

fn regex_host(r: &Patterns, buffer: &str) -> String {
    let (path_reg, proto_reg, port_reg) = (&r.path, &r.proto, &r.host_port);
    let domain_path = proto_reg.replace_all(buffer, "");
    let domain = path_reg.replace_all(&domain_path, "");
    let domain = port_reg.replace_all(&domain, "");
    domain.to_string()
}

fn regex_port(r: &Patterns, buffer: &str, protocol: Proto) -> u16 {
    let (path_reg, proto_reg, port_reg) = (&r.path, &r.proto, &r.port);
    let domain_path = proto_reg.replace_all(buffer, "");
    let domain = path_reg.replace_all(&domain_path, "");
    match port_reg.find(&domain) {
        Some(port) => port.as_str().parse::<u16>().unwrap_or(0),
        None => match protocol {
            Proto::HTTPS => 443,
            _ => 80,
        },
    }
}

fn regex_path(reg: &Regex, regport: &Regex, buffer: &str) -> Option<String> {
    let pat = reg.captures(buffer)?;
    let pat = pat.get(0)?;
    Some(regport.replace_all(pat.as_str(), "").to_string())
}

fn regex_protocol(reg: &Regex, buffer: &str) -> Proto {
    let proto = reg.captures(buffer).unwrap().get(0).unwrap().as_str();
    match proto {
        "https" => Proto::HTTPS,
        "http" => Proto::HTTP,
        "ws" => Proto::WS,
        "wss" => Proto::WSS,
        _ => Proto::NULL,
    }
}

fn regex_value(value: &str) -> Option<String> {
    let reg = Regex::new("[^\\s].*[^\\r]").unwrap();
    Some(reg.captures(value)?.get(0)?.as_str().to_string())
}

fn targets() -> Vec<String> {
    let schemes = ["", "http://", "https://", "ws://", "wss://", "ftp://", "http:/", "a://b://"];
    let hosts = ["", "example.com", "a.b.c", "localhost", "10.0.0.1", "h0st9", "x:y", "ex_am[ple]", "\u{e9}t\u{e9}.fr"];
    let ports = ["", ":", ":8", ":80", ":8080", ":65535", ":70000", ":+12", "8080", ":\u{663}\u{664}", ".12"];
    let paths = ["", "/", "/index.html", "/a/b", "/x:12y", "/p.q/r", "/~u", "/A.z{", "/.."];
    let mut out = Vec::new();
    for s in schemes {
        for h in hosts {
            for p in ports {
                for q in paths {
                    out.push(format!("{s}{h}{p}{q}"));
                }
            }
        }
    }
    out
}

#[test]
fn host_matches_regex() {
    let r = patterns();
    for t in targets() {
        assert_eq!(text(&host_name(&chars(&t))), regex_host(&r, &t), "target {:?}", t);
    }
}

#[test]
fn port_matches_regex() {
    let r = patterns();
    for t in targets() {
        for p in [Proto::HTTP, Proto::HTTPS, Proto::NULL] {
            assert_eq!(port_number(&chars(&t), p), regex_port(&r, &t, p), "target {:?}", t);
        }
    }
}

#[test]
fn path_matches_regex() {
    let reg = Regex::new("[^.A-z]{1,}(([^.]*)$)").unwrap();
    let regport = Regex::new(":\\d+").unwrap();
    for t in targets() {
        let mine = path_text(&chars(&t)).map(|v| text(&v));
        assert_eq!(mine, regex_path(&reg, &regport, &t), "target {:?}", t);
    }
}

#[test]
fn protocol_matches_regex() {
    let reg = Regex::new("^([^:]*)").unwrap();
    for t in targets() {
        assert_eq!(protocol(&chars(&t)), regex_protocol(&reg, &t), "target {:?}", t);
    }
}

#[test]
fn header_value_matches_regex() {
    let values = [
        "", " ", "\r", " x\r", " xy\r", "x", "xy", "  a b  \r", "\t\u{a0}v\r\r", " \r\r", "ab\rc", "\u{2003}q r",
        " \u{85}z", "é\r", " éé",
    ];
    for v in values {
        let mine = header_value(&chars(v)).map(|c| text(&c));
        assert_eq!(mine, regex_value(v), "value {:?}", v);
    }
}
