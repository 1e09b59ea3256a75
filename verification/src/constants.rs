//! Settings of the proxy.
use vstd::prelude::*;

verus! {

/// Which log messages are shown, one bit each:
/// `0b10000000` new clients, `0b01000000` connected addresses,
/// `0b00100000` requested domains, `0b00010000` raw packet data,
/// `0b00001000` connection errors, `0b00000100` internal errors,
/// `0b00000010` proxy events.
pub const DEBUG: u8 = 0b00010000;

/// Whether TLS connections are decrypted.
pub const TLS: bool = false;

pub const IP_BIND: &'static str = "0.0.0.0";
pub const PORT_BIND: u16 = 1080;

pub const PROXY_NAME: &'static str = "Xproxy";
pub const PROXY_VERSION: &'static str = "1.0";

pub const HTTP_VERSION: &'static str = "1.1";

} // verus!
