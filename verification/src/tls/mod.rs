//! Deciding how to present the proxy's certificate for an intercepted host.
pub mod cert;
pub mod utils;
