use xproxy::connection::{
    after_request_write, relay_step, tls_relay_step, server_address, Forwarding, RelayAction, RelayEvent, TcpError,
};

#[test]
fn relay_forwards_what_was_read() {
    assert_eq!(relay_step(RelayEvent::Received(Some(12))), RelayAction::Forward(12));
}

#[test]
fn relay_stops_when_source_is_done() {
    assert_eq!(relay_step(RelayEvent::Received(Some(0))), RelayAction::CloseDestination);
    assert_eq!(relay_step(RelayEvent::Received(None)), RelayAction::CloseDestination);
}

#[test]
fn relay_stops_when_destination_takes_nothing() {
    assert_eq!(relay_step(RelayEvent::Sent(Some(3))), RelayAction::Continue);
    assert_eq!(relay_step(RelayEvent::Sent(Some(0))), RelayAction::CloseSource);
    assert_eq!(relay_step(RelayEvent::Sent(None)), RelayAction::CloseSource);
}

#[test]
fn request_write_outcomes() {
    assert!(matches!(after_request_write(None), Err(TcpError::Refused)));
    assert!(matches!(after_request_write(Some(0)), Ok(Forwarding::Close)));
    assert!(matches!(after_request_write(Some(100)), Ok(Forwarding::Relay)));
}

#[test]
fn server_address_is_host_colon_port() {
    assert_eq!(server_address("example.com", 443), "example.com:443");
    assert_eq!(server_address("127.0.0.1", 8), "127.0.0.1:8");
    assert_eq!(server_address("h", 65535), "h:65535");
}

#[test]
fn tls_relay_always_shuts_its_source() {
    assert_eq!(tls_relay_step(RelayEvent::Received(Some(5))), RelayAction::Forward(5));
    assert_eq!(tls_relay_step(RelayEvent::Received(Some(0))), RelayAction::CloseSource);
    assert_eq!(tls_relay_step(RelayEvent::Received(None)), RelayAction::CloseSource);
    assert_eq!(tls_relay_step(RelayEvent::Sent(Some(5))), RelayAction::Continue);
    assert_eq!(tls_relay_step(RelayEvent::Sent(Some(0))), RelayAction::CloseSource);
    assert_eq!(tls_relay_step(RelayEvent::Sent(None)), RelayAction::CloseSource);
}
