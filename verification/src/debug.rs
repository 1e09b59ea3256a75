//! Which log messages are shown, and what a request's log line says.
use vstd::prelude::*;
use crate::http_utils::{HostView, Method, Payload, PayloadView};
use crate::text::{push_chars, push_str};
use crate::utils::{decimal, decimal_chars};

verus! {

/// Whether the messages of kind `mode` are shown under the setting
/// `flags`: every bit of `mode` is set in `flags`.
pub fn debug_enabled(flags: u8, mode: u8) -> (r: bool)
    ensures
        r == (flags & mode == mode),
{
    flags & mode == mode
}

/// Whether a proxy message of kind `mode` is printed under the setting
/// `flags`: every bit of `mode` is set in `flags`, or `mode` has all bits
/// set (messages that are always printed).
pub fn log_enabled(flags: u8, mode: u8) -> (r: bool)
    ensures
        r == ((flags & mode == mode) || (mode & 0xFF == 0xFF)),
{
    (flags & mode == mode) || (mode & 0xFF == 0xFF)
}

/// The name of a method, as it is printed.
pub open spec fn method_label(m: Method) -> Seq<char> {
    match m {
        Method::CONNECT => "CONNECT"@,
        Method::GET => "GET"@,
        Method::POST => "POST"@,
        Method::NULL => "NULL"@,
    }
}

/// What the log says of a request for a domain: its method, the domain and
/// the port; nothing for a request that names no domain.
pub open spec fn request_summary_of(p: PayloadView) -> Option<Seq<char>> {
    match p.http_header.host {
        HostView::Domain(host) => Some(
            method_label(p.http_header.method) + " "@ + host + ":"@ + decimal(
                p.http_header.port as nat,
            ),
        ),
        _ => None,
    }
}

/// What the log says of a request (after the client's address).
pub fn request_summary(packet: &Payload) -> (line: Option<String>)
    ensures
        (match line {
            Some(l) => request_summary_of(packet@) == Some(l@),
            None => request_summary_of(packet@) is None,
        }),
{
    match &packet.http_header.host {
        crate::http_utils::Host::domain(host) => {
            let mut line = String::new();
            match packet.http_header.method {
                Method::CONNECT => push_str(&mut line, "CONNECT"),
                Method::GET => push_str(&mut line, "GET"),
                Method::POST => push_str(&mut line, "POST"),
                Method::NULL => push_str(&mut line, "NULL"),
            }
            push_str(&mut line, " ");
            push_str(&mut line, host.as_str());
            push_str(&mut line, ":");
            let port = decimal_chars(packet.http_header.port as u64);
            push_chars(&mut line, port.as_slice());
            assert(line@ =~= request_summary_of(packet@).unwrap());
            Some(line)
        },
        _ => None,
    }
}

} // verus!
