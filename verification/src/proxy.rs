//! What the proxy does with a client's first packet.
use vstd::prelude::*;
use crate::constants::{IP_BIND, PORT_BIND, TLS};
use crate::http_utils::{
    connection_response, decode, make_connection_response, request_of,
    utf8_lossy, HostView, HttpError, Method, Payload, PayloadView, Host,
};
use crate::text::{push_chars, push_str};
use crate::utils::{decimal, decimal_chars};

verus! {

/// What to do with a client.
pub enum ClientAction {
    /// Drop the client.
    Ignore,
    /// Answer `reply`, then tunnel the client's bytes to `host:port`.
    Tunnel { reply: String, host: String, port: u16 },
    /// Answer `reply`, then decrypt the client's TLS session and
    /// re-encrypt it towards `host`.
    InterceptTls { reply: String, host: String },
    /// Send the client's packet as it is to `host:port` and relay the
    /// answer.
    Forward { host: String, port: u16 },
}

/// What to do with a client, as plain values.
pub enum ClientActionView {
    Ignore,
    Tunnel { reply: Seq<char>, host: Seq<char>, port: u16 },
    InterceptTls { reply: Seq<char>, host: Seq<char> },
    Forward { host: Seq<char>, port: u16 },
}

impl View for ClientAction {
    type V = ClientActionView;

    open spec fn view(&self) -> ClientActionView {
        match self {
            ClientAction::Ignore => ClientActionView::Ignore,
            ClientAction::Tunnel { reply, host, port } => ClientActionView::Tunnel {
                reply: reply@,
                host: host@,
                port: *port,
            },
            ClientAction::InterceptTls { reply, host } => ClientActionView::InterceptTls {
                reply: reply@,
                host: host@,
            },
            ClientAction::Forward { host, port } => ClientActionView::Forward {
                host: host@,
                port: *port,
            },
        }
    }
}

/// What to do with a decoded request: a request that names no domain, or
/// no method the proxy knows, is dropped; `CONNECT` is answered as
/// established and then tunnelled (or intercepted when TLS decryption is
/// on); any other method is forwarded to the host and port it names.
pub open spec fn action_for(p: PayloadView) -> ClientActionView {
    match p.http_header.host {
        HostView::Domain(host) => match p.http_header.method {
            Method::CONNECT => if TLS {
                ClientActionView::InterceptTls { reply: connection_response(200, true), host: host }
            } else {
                ClientActionView::Tunnel {
                    reply: connection_response(200, true),
                    host: host,
                    port: p.http_header.port,
                }
            },
            Method::NULL => ClientActionView::Ignore,
            _ => ClientActionView::Forward { host: host, port: p.http_header.port },
        },
        _ => ClientActionView::Ignore,
    }
}

/// What to do with a client's first packet once decoded; a packet that
/// does not decode is dropped.
pub open spec fn action_for_request(r: Result<PayloadView, HttpError>) -> ClientActionView {
    match r {
        Ok(p) => action_for(p),
        Err(_) => ClientActionView::Ignore,
    }
}

/// What to do with a decoded request.
pub fn route(packet: Payload) -> (action: ClientAction)
    ensures
        action@ == action_for(packet@),
{
    let method = packet.http_header.method;
    let port = packet.http_header.port;
    match packet.http_header.host {
        Host::domain(url) => match method {
            Method::CONNECT => {
                let reply = make_connection_response(200, true);
                if TLS {
                    ClientAction::InterceptTls { reply, host: url }
                } else {
                    ClientAction::Tunnel { reply, host: url, port }
                }
            },
            Method::NULL => ClientAction::Ignore,
            _ => ClientAction::Forward { host: url, port },
        },
        _ => ClientAction::Ignore,
    }
}

/// What to do with a client's first packet.
pub fn handle_client(packet: &[u8]) -> (action: ClientAction)
    ensures
        action@ == action_for_request(request_of(utf8_lossy(packet@))),
{
    match decode(packet) {
        Ok(payload) => route(payload),
        Err(_) => ClientAction::Ignore,
    }
}

/// The address the proxy listens on: `IP_BIND:PORT_BIND`.
pub fn listen_address() -> (addr: String)
    ensures
        addr@ == IP_BIND@ + ":"@ + decimal(PORT_BIND as nat),
{
    let mut addr = String::new();
    push_str(&mut addr, IP_BIND);
    push_str(&mut addr, ":");
    let digits = decimal_chars(PORT_BIND as u64);
    push_chars(&mut addr, digits.as_slice());
    addr
}

} // verus!
