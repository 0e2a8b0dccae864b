//! The outbound messages: exact JSON text, exact packet bytes, the identifier
//! pool, and the request history.

use phantom_core::profile::{RichText, StatusProfile};
use phantom_core::request::handshake::Handshake;
use phantom_core::request::login::Login;
use phantom_core::request::ping::Ping;
use phantom_core::request::slp_history::SlpHistory;
use phantom_core::response::login_failure::LoginFailure;
use phantom_core::response::pong::Pong;
use phantom_core::response::status::{favicon_to_base64, Players, Status, UuidPicker, Version};

fn sample_picker() -> UuidPicker {
    UuidPicker::new(vec![
        String::from("00000000-0000-0000-0000-000000000001"),
        String::from("00000000-0000-0000-0000-000000000002"),
        String::from("00000000-0000-0000-0000-000000000003"),
    ])
}

fn sample_handshake(next_state: i32) -> Handshake {
    Handshake {
        protocol_version: 766,
        server_address: String::from("play.example.com"),
        server_port: 25565,
        next_state,
    }
}

#[test]
fn pong_echoes_ping_payload_exactly() {
    let pong = Pong::from_ping(Ping { payload: 42 });
    assert_eq!(pong.encode(), vec![9, 0x01, 0, 0, 0, 0, 0, 0, 0, 42]);
    let pong = Pong::from_ping(Ping { payload: -1 });
    assert_eq!(pong.encode(), vec![9, 0x01, 255, 255, 255, 255, 255, 255, 255, 255]);
}

#[test]
fn status_json_exact_text() {
    let status = Status {
        version: Version { name: String::from("1.20.4"), protocol: 766 },
        players: Players {
            max: 20,
            online: 5,
            sample: vec![
                phantom_core::response::status::Player {
                    name: String::from("line one"),
                    id: String::from("id-1"),
                },
                phantom_core::response::status::Player {
                    name: String::from("line two"),
                    id: String::from("id-2"),
                },
            ],
        },
        description: RichText { text: String::from("A \"quoted\" motd\nwith lines") },
        favicon: Some(String::from("data:image/png;base64,YWJj")),
        enforces_secure_chat: true,
    };
    let json = String::from_utf8(status.to_json()).unwrap();
    let expected = "{\"version\":{\"name\":\"1.20.4\",\"protocol\":766},\
\"players\":{\"max\":20,\"online\":5,\"sample\":[\
{\"name\":\"line one\",\"id\":\"id-1\"},\
{\"name\":\"line two\",\"id\":\"id-2\"}]},\
\"description\":{\"text\":\"A \\\"quoted\\\" motd\\nwith lines\"},\
\"favicon\":\"data:image/png;base64,YWJj\",\
\"enforcesSecureChat\":true}";
    assert_eq!(json, expected);
}

#[test]
fn status_default_json() {
    let json = String::from_utf8(Status::default().to_json()).unwrap();
    let expected = "{\"version\":{\"name\":\"Placeholder\",\"protocol\":0},\
\"players\":{\"max\":0,\"online\":0,\"sample\":[]},\
\"description\":{\"text\":\"This is a placeholder\"},\
\"enforcesSecureChat\":false}";
    assert_eq!(json, expected);
}

#[test]
fn status_packet_is_kind_then_json_string() {
    let status = Status::default();
    let json = status.to_json();
    let packet = status.encode().unwrap();
    // frame length, kind 0x00, json byte length, json bytes
    let json_prefix = phantom_core::data_types::var_int::encode_var_int32(json.len() as i32);
    let mut expected = phantom_core::data_types::var_int::encode_var_int32(
        (1 + json_prefix.len() + json.len()) as i32,
    );
    expected.push(0x00);
    expected.extend_from_slice(&json_prefix);
    expected.extend_from_slice(&json);
    assert_eq!(packet, expected);
}

#[test]
fn status_from_profile_echoes_or_overrides_protocol() {
    let picker = sample_picker();
    let handshake = sample_handshake(1);
    let mut profile = StatusProfile {
        version_name: String::from("1.20.4"),
        respond_outdated_protocol: false,
        hover_text: vec![String::from("a"), String::from("b")],
        max_players: 20,
        players_online: 5,
        favicon: None,
        enforces_secure_chat: true,
        motd: RichText { text: String::from("Welcome") },
    };
    let status = Status::from_profile(&profile, &handshake, &picker);
    assert_eq!(status.version.protocol, 766);
    assert_eq!(status.version.name, "1.20.4");
    assert_eq!(status.players.sample.len(), 2);
    assert_eq!(status.players.sample[0].name, "a");
    assert_eq!(status.players.sample[1].name, "b");

    profile.respond_outdated_protocol = true;
    let status = Status::from_profile(&profile, &handshake, &picker);
    assert_eq!(status.version.protocol, 0);
}

#[test]
fn favicon_becomes_a_data_uri() {
    // The base64 of "abc" is "YWJj": the encoder really ran.
    assert_eq!(favicon_to_base64(&vec![0x61, 0x62, 0x63]), "data:image/png;base64,YWJj");
    assert_eq!(favicon_to_base64(&Vec::new()), "data:image/png;base64,");
}

#[test]
fn status_from_profile_serves_favicon() {
    let picker = sample_picker();
    let profile = StatusProfile {
        version_name: String::from("x"),
        respond_outdated_protocol: false,
        hover_text: Vec::new(),
        max_players: 1,
        players_online: 0,
        favicon: Some(vec![0x61, 0x62, 0x63]),
        enforces_secure_chat: false,
        motd: RichText { text: String::from("m") },
    };
    let status = Status::from_profile(&profile, &sample_handshake(1), &picker);
    assert_eq!(status.favicon.as_deref(), Some("data:image/png;base64,YWJj"));
}

#[test]
fn next_uuid_draws_from_the_pool() {
    let picker = sample_picker();
    for _ in 0..32 {
        let id = picker.next_uuid();
        assert!(id.starts_with("00000000-0000-0000-0000-00000000000"));
    }
}

#[test]
fn players_compile_pairs_each_line_with_a_pool_id() {
    let picker = sample_picker();
    let players = Players::compile(
        7,
        3,
        vec![String::from("first"), String::from("second"), String::from("third")],
        &picker,
    );
    assert_eq!(players.max, 7);
    assert_eq!(players.online, 3);
    assert_eq!(players.sample.len(), 3);
    for (i, expected) in ["first", "second", "third"].iter().enumerate() {
        assert_eq!(&players.sample[i].name, expected);
        assert!(!players.sample[i].id.is_empty());
    }
}

#[test]
fn login_failure_packet_is_kind_then_json_reason() {
    let failure = LoginFailure { reason: RichText { text: String::from("no entry") } };
    let packet = failure.encode().unwrap();
    let json = b"{\"text\":\"no entry\"}";
    let mut expected = vec![(1 + 1 + json.len()) as u8, 0x00, json.len() as u8];
    expected.extend_from_slice(json);
    assert_eq!(packet, expected);
}

#[test]
fn history_records_each_request_once() {
    let history = SlpHistory::new();
    assert!(history.handshake().is_none());
    assert!(history.ping().is_none());
    assert!(history.login().is_none());

    let history = history.with_handshake(sample_handshake(1)).with_ping(Ping { payload: 3 });
    assert_eq!(history.handshake().as_ref().unwrap().protocol_version, 766);
    assert_eq!(history.ping().as_ref().unwrap().payload, 3);
    assert!(history.login().is_none());
}

#[test]
fn history_merge_prefers_the_left_side() {
    let left = SlpHistory::new().with_ping(Ping { payload: 1 });
    let right = SlpHistory::new().with_ping(Ping { payload: 2 }).with_login(Login {
        player_name: String::from("Alice"),
        player_uuid: None,
    });
    let merged = left.merge(right);
    assert_eq!(merged.ping().as_ref().unwrap().payload, 1);
    assert_eq!(merged.login().as_ref().unwrap().player_name, "Alice");
    assert!(merged.handshake().is_none());
}
