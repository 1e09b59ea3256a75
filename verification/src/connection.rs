//! The decisions of the byte relay between a client and a server.
use vstd::prelude::*;
use crate::text::{push_chars, push_str};
use crate::utils::{decimal, decimal_chars};

verus! {

/// Why a connection to the server did not work out.
#[derive(Debug)]
pub enum TcpError {
    ConnectionFailed,
    Refused,
    Other(String),
    Null,
}

/// What the relay learns from one side of a connection: the outcome of a
/// read from the source or of a write to the destination (`None` for an
/// I/O error).
#[derive(Clone, Copy, Debug, PartialEq, Eq, Structural)]
pub enum RelayEvent {
    Received(Option<usize>),
    Sent(Option<usize>),
}

/// What the relay does next.
#[derive(Clone, Copy, Debug, PartialEq, Eq, Structural)]
pub enum RelayAction {
    /// Pass the bytes just read on to the destination.
    Forward(usize),
    /// Read again from the source.
    Continue,
    /// The source is done: shut the destination down and stop.
    CloseDestination,
    /// Shut the source down and stop.
    CloseSource,
}

/// The relay's next step: a read that fails or gets nothing ends the
/// relay by shutting the destination; bytes read are passed on; a write
/// that fails or writes nothing ends it by shutting the source.
pub open spec fn relay_action_of(event: RelayEvent) -> RelayAction {
    match event {
        RelayEvent::Received(Some(n)) => if n == 0 {
            RelayAction::CloseDestination
        } else {
            RelayAction::Forward(n)
        },
        RelayEvent::Received(None) => RelayAction::CloseDestination,
        RelayEvent::Sent(Some(n)) => if n == 0 {
            RelayAction::CloseSource
        } else {
            RelayAction::Continue
        },
        RelayEvent::Sent(None) => RelayAction::CloseSource,
    }
}

/// The relay's next step after an event.
pub fn relay_step(event: RelayEvent) -> (action: RelayAction)
    ensures
        action == relay_action_of(event),
{
    match event {
        RelayEvent::Received(read) => {
            let n = match read {
                Some(n) => n,
                None => 0,
            };
            if n == 0 {
                RelayAction::CloseDestination
            } else {
                RelayAction::Forward(n)
            }
        },
        RelayEvent::Sent(written) => {
            let n = match written {
                Some(n) => n,
                None => 0,
            };
            if n == 0 {
                RelayAction::CloseSource
            } else {
                RelayAction::Continue
            }
        },
    }
}

/// The next step of the relay between two TLS sessions: bytes read are
/// passed on; a read that fails or gets nothing, and a write that fails or
/// writes nothing, both end the relay by shutting the session it reads
/// from.
pub open spec fn tls_relay_action_of(event: RelayEvent) -> RelayAction {
    match event {
        RelayEvent::Received(Some(n)) => if n == 0 {
            RelayAction::CloseSource
        } else {
            RelayAction::Forward(n)
        },
        RelayEvent::Received(None) => RelayAction::CloseSource,
        RelayEvent::Sent(Some(n)) => if n == 0 {
            RelayAction::CloseSource
        } else {
            RelayAction::Continue
        },
        RelayEvent::Sent(None) => RelayAction::CloseSource,
    }
}

/// The TLS relay's next step after an event.
pub fn tls_relay_step(event: RelayEvent) -> (action: RelayAction)
    ensures
        action == tls_relay_action_of(event),
{
    let n = match event {
        RelayEvent::Received(read) => match read {
            Some(n) => n,
            None => 0,
        },
        RelayEvent::Sent(written) => match written {
            Some(n) => n,
            None => 0,
        },
    };
    if n == 0 {
        RelayAction::CloseSource
    } else {
        match event {
            RelayEvent::Received(_) => RelayAction::Forward(n),
            RelayEvent::Sent(_) => RelayAction::Continue,
        }
    }
}

/// What follows once a forwarded request has been written to the server.
#[derive(Clone, Copy, Debug, PartialEq, Eq, Structural)]
pub enum Forwarding {
    /// Relay both ways between client and server.
    Relay,
    /// The server took nothing: shut the connection down.
    Close,
}

/// The outcome of writing a forwarded request: an error refuses the
/// connection, a write of nothing closes it, anything else starts the
/// relay.
pub fn after_request_write(written: Option<usize>) -> (r: Result<Forwarding, TcpError>)
    ensures
        written is None ==> r matches Err(TcpError::Refused),
        written == Some(0usize) ==> r matches Ok(Forwarding::Close),
        written matches Some(n) && n > 0 ==> r matches Ok(Forwarding::Relay),
{
    match written {
        None => Err(TcpError::Refused),
        Some(size) => if size == 0 {
            Ok(Forwarding::Close)
        } else {
            Ok(Forwarding::Relay)
        },
    }
}

/// The address a server is reached at: `host:port`.
pub open spec fn address_of(host: Seq<char>, port: u16) -> Seq<char> {
    host + ":"@ + decimal(port as nat)
}

/// The address a server is reached at.
pub fn server_address(host: &str, port: u16) -> (addr: String)
    ensures
        addr@ == address_of(host@, port),
{
    let mut addr = String::new();
    push_str(&mut addr, host);
    push_str(&mut addr, ":");
    let digits = decimal_chars(port as u64);
    push_chars(&mut addr, digits.as_slice());
    addr
}

} // verus!
