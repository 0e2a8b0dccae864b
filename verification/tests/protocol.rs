//! The connection state machine, end to end: the status flow with a resolved
//! and an unresolved host, the ping-only shortcut, the login rejection, and
//! the protocol violations.

use phantom_core::data_types::reader::Reader;
use phantom_core::data_types::strings::{decode_string, encode_string};
use phantom_core::data_types::var_int::encode_var_int32;
use phantom_core::packet::{read_packet, read_packet_kind};
use phantom_core::error::SlpError;
use phantom_core::machine::{step, Action, ConnState, Event};
use phantom_core::profile::{DisconnectProfile, LookupResult, RichText, StatusProfile};
use phantom_core::response::status::UuidPicker;

fn picker() -> UuidPicker {
    UuidPicker::new(vec![
        String::from("7d9d8f10-0001-4c3a-9c6e-000000000001"),
        String::from("7d9d8f10-0002-4c3a-9c6e-000000000002"),
    ])
}

/// The handshake frame body: kind 0x00 and the four handshake fields.
fn handshake_body(protocol_version: i32, server_address: &str, port: u16, next_state: i32) -> Vec<u8> {
    let mut body = vec![0x00];
    body.extend_from_slice(&encode_var_int32(protocol_version));
    body.extend_from_slice(&encode_string(server_address).unwrap());
    body.extend_from_slice(&port.to_be_bytes());
    body.extend_from_slice(&encode_var_int32(next_state));
    body
}

/// A ping frame body: kind 0x01 and eight big-endian payload bytes.
fn ping_body(payload: i64) -> Vec<u8> {
    let mut body = vec![0x01];
    body.extend_from_slice(&payload.to_be_bytes());
    body
}

fn example_profile() -> StatusProfile {
    StatusProfile {
        version_name: String::from("1.20.4"),
        respond_outdated_protocol: false,
        hover_text: vec![
            String::from("hover one"),
            String::from("hover two"),
            String::from("hover three"),
        ],
        max_players: 20,
        players_online: 5,
        favicon: None,
        enforces_secure_chat: true,
        motd: RichText { text: String::from("Welcome!") },
    }
}

/// The JSON text inside a status packet: strip the frame length, the kind and
/// the string length prefix (all single-byte for the sizes used here is not
/// assumed: the prefixes are parsed properly through the library).
fn json_of_status_packet(bytes: &[u8]) -> String {
    let mut source = Reader::new(bytes.to_vec());
    let mut frame = read_packet(&mut source).unwrap();
    assert_eq!(read_packet_kind(&mut frame).unwrap(), 0x00);
    assert_eq!(source.len(), 0);
    decode_string(&mut frame).unwrap()
}

#[test]
fn scenario_status_with_resolved_profile() {
    let picker = picker();
    // Handshake for the status flow.
    let (state, action) = step(
        ConnState::AwaitHandshake,
        Event::Packet { body: handshake_body(766, "play.example.com", 25565, 1) },
        &picker,
    )
    .unwrap();
    assert!(matches!(action, Action::ReadPacket));
    assert!(matches!(state, ConnState::AwaitStatusRequest { .. }));

    // Status request: the machine asks for the profile of the virtual host.
    let (state, action) = step(state, Event::Packet { body: vec![0x00] }, &picker).unwrap();
    match &action {
        Action::ResolveStatus { host } => assert_eq!(host, "play.example.com"),
        other => panic!("expected a status lookup, got {other:?}"),
    }
    assert!(matches!(state, ConnState::AwaitStatusProfile { .. }));

    // Profile hit: the protocol is echoed, the sample matches the hover text.
    let (state, action) = step(
        state,
        Event::StatusLookup { result: LookupResult::Hit(example_profile()) },
        &picker,
    )
    .unwrap();
    assert!(matches!(state, ConnState::AwaitPing));
    let bytes = match action {
        Action::Send { bytes } => bytes,
        other => panic!("expected a send, got {other:?}"),
    };
    let json = json_of_status_packet(&bytes);
    assert!(json.contains("\"protocol\":766"));
    assert_eq!(json.matches("\"id\":\"7d9d8f10-").count(), 3);
    assert!(json.contains("\"name\":\"hover one\""));

    // Then the ping: the pong echoes its payload and the connection is done.
    let (state, action) = step(state, Event::Packet { body: ping_body(42) }, &picker).unwrap();
    assert!(matches!(state, ConnState::Done));
    match action {
        Action::Send { bytes } => assert_eq!(bytes, vec![9, 0x01, 0, 0, 0, 0, 0, 0, 0, 42]),
        other => panic!("expected a pong, got {other:?}"),
    }
}

#[test]
fn scenario_status_with_unresolved_host() {
    let picker = picker();
    let (state, _) = step(
        ConnState::AwaitHandshake,
        Event::Packet { body: handshake_body(766, "unknown.example.net", 25565, 1) },
        &picker,
    )
    .unwrap();
    let (state, _) = step(state, Event::Packet { body: vec![0x00] }, &picker).unwrap();
    let (state, action) = step(
        state,
        Event::StatusLookup { result: LookupResult::Miss },
        &picker,
    )
    .unwrap();
    assert!(matches!(state, ConnState::AwaitPing));
    let bytes = match action {
        Action::Send { bytes } => bytes,
        other => panic!("expected a send, got {other:?}"),
    };
    let json = json_of_status_packet(&bytes);
    assert!(json.contains("\"max\":0"));
    assert!(json.contains("\"online\":0"));
    assert!(json.contains("\"sample\":[]"));
}

#[test]
fn scenario_ping_only_shortcut() {
    let picker = picker();
    let (state, _) = step(
        ConnState::AwaitHandshake,
        Event::Packet { body: handshake_body(766, "play.example.com", 25565, 1) },
        &picker,
    )
    .unwrap();
    // A ping with no prior status request: answered at once, no status sent.
    let (state, action) = step(state, Event::Packet { body: ping_body(7) }, &picker).unwrap();
    assert!(matches!(state, ConnState::Done));
    match action {
        Action::Send { bytes } => assert_eq!(bytes, vec![9, 0x01, 0, 0, 0, 0, 0, 0, 0, 7]),
        other => panic!("expected a pong, got {other:?}"),
    }
}

#[test]
fn scenario_login_with_resolved_profile() {
    let picker = picker();
    let (state, _) = step(
        ConnState::AwaitHandshake,
        Event::Packet { body: handshake_body(766, "play.example.com", 25565, 2) },
        &picker,
    )
    .unwrap();
    assert!(matches!(state, ConnState::AwaitLoginStart { .. }));

    // LoginStart { playerName: "Alice" }, no identifier bytes.
    let mut body = vec![0x00];
    body.extend_from_slice(&encode_string("Alice").unwrap());
    let (state, action) = step(state, Event::Packet { body }, &picker).unwrap();
    match &action {
        Action::ResolveDisconnect { host } => assert_eq!(host, "play.example.com"),
        other => panic!("expected a disconnect lookup, got {other:?}"),
    }

    let profile = DisconnectProfile { reason: RichText { text: String::from("Closed for now") } };
    let (state, action) = step(
        state,
        Event::DisconnectLookup { result: LookupResult::Hit(profile) },
        &picker,
    )
    .unwrap();
    assert!(matches!(state, ConnState::Done));
    let bytes = match action {
        Action::Send { bytes } => bytes,
        other => panic!("expected a send, got {other:?}"),
    };
    let json = b"{\"text\":\"Closed for now\"}";
    let mut expected = vec![(2 + json.len()) as u8, 0x00, json.len() as u8];
    expected.extend_from_slice(json);
    assert_eq!(bytes, expected);
}

#[test]
fn scenario_login_miss_greets_the_player() {
    let picker = picker();
    let (state, _) = step(
        ConnState::AwaitHandshake,
        Event::Packet { body: handshake_body(766, "play.example.com", 25565, 2) },
        &picker,
    )
    .unwrap();
    let mut body = vec![0x00];
    body.extend_from_slice(&encode_string("Alice").unwrap());
    let (state, _) = step(state, Event::Packet { body }, &picker).unwrap();
    let (state, action) = step(
        state,
        Event::DisconnectLookup { result: LookupResult::Miss },
        &picker,
    )
    .unwrap();
    assert!(matches!(state, ConnState::Done));
    match action {
        Action::Send { bytes } => {
            let text = String::from_utf8(bytes).unwrap();
            assert!(text.contains("{\"text\":\"Hello Alice!\"}"));
        },
        other => panic!("expected a send, got {other:?}"),
    }
}

#[test]
fn scenario_wrong_kind_is_a_protocol_violation() {
    let picker = picker();
    let (state, _) = step(
        ConnState::AwaitHandshake,
        Event::Packet { body: handshake_body(766, "play.example.com", 25565, 1) },
        &picker,
    )
    .unwrap();
    // First packet of the status flow has kind 0x02: fatal, nothing sent.
    let err = step(state, Event::Packet { body: vec![0x02, 0x00] }, &picker).unwrap_err();
    assert_eq!(err, SlpError::ProtocolViolation);
}

#[test]
fn handshake_must_come_first() {
    let picker = picker();
    let err = step(
        ConnState::AwaitHandshake,
        Event::Packet { body: ping_body(1) },
        &picker,
    )
    .unwrap_err();
    assert_eq!(err, SlpError::ProtocolViolation);
}

#[test]
fn invalid_next_state_is_a_protocol_violation() {
    let picker = picker();
    let err = step(
        ConnState::AwaitHandshake,
        Event::Packet { body: handshake_body(766, "play.example.com", 25565, 3) },
        &picker,
    )
    .unwrap_err();
    assert_eq!(err, SlpError::ProtocolViolation);
}

#[test]
fn ping_after_status_must_be_a_ping() {
    let picker = picker();
    let err = step(
        ConnState::AwaitPing,
        Event::Packet { body: vec![0x00] },
        &picker,
    )
    .unwrap_err();
    assert_eq!(err, SlpError::ProtocolViolation);
}

#[test]
fn lookup_failure_is_fatal() {
    let picker = picker();
    let (state, _) = step(
        ConnState::AwaitHandshake,
        Event::Packet { body: handshake_body(766, "play.example.com", 25565, 1) },
        &picker,
    )
    .unwrap();
    let (state, _) = step(state, Event::Packet { body: vec![0x00] }, &picker).unwrap();
    let err = step(
        state,
        Event::StatusLookup { result: LookupResult::Failed },
        &picker,
    )
    .unwrap_err();
    assert_eq!(err, SlpError::ConfigurationLookupFailed);
}

#[test]
fn empty_frame_is_frame_exhausted() {
    let picker = picker();
    let err = step(
        ConnState::AwaitHandshake,
        Event::Packet { body: Vec::new() },
        &picker,
    )
    .unwrap_err();
    assert_eq!(err, SlpError::FrameExhausted);
}

#[test]
fn truncated_handshake_is_frame_exhausted() {
    let picker = picker();
    // Kind byte and protocol version, then the frame ends mid-address.
    let err = step(
        ConnState::AwaitHandshake,
        Event::Packet { body: vec![0x00, 0x8E, 0x06, 0x10, 0x61] },
        &picker,
    )
    .unwrap_err();
    assert_eq!(err, SlpError::FrameExhausted);
}

#[test]
fn resolving_the_same_host_twice_gives_the_same_profile() {
    // The store is keyed by the virtual host and does not mutate on lookup:
    // a value-semantics stand-in for it answers both lookups of one response
    // cycle identically.
    let table = vec![(String::from("play.example.com"), example_profile())];
    let resolve = |host: &str| -> LookupResult<StatusProfile> {
        for (key, profile) in &table {
            if key == host {
                return LookupResult::Hit(profile.clone());
            }
        }
        LookupResult::Miss
    };
    let first = resolve("play.example.com");
    let second = resolve("play.example.com");
    match (first, second) {
        (LookupResult::Hit(a), LookupResult::Hit(b)) => assert_eq!(a, b),
        _ => panic!("expected two hits"),
    }
}
