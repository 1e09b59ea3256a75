//! Request parsing, routing decisions and packet formatting for a small
//! sniffing HTTP(S) proxy.
#![allow(non_camel_case_types)]

pub mod constants;
pub mod utils;
pub mod text;
pub mod charclass;
pub mod grammar;
pub mod http_utils;
pub mod tls;
pub mod connection;
pub mod debug;
pub mod proxy;
pub mod laws;
