//! The per-connection protocol state machine, free of any transport: the
//! surrounding task reads packets and resolves profiles, and each `step` takes
//! the current state and one event to the next state and the action to
//! perform. Every response byte is pinned down here.

use vstd::prelude::*;
use vstd::string::StringExecFns;
use vstd::utf8::{decode_utf8, valid_utf8};

use crate::data_types::fixed::{
    i32_of_bits, lemma_be_val_bound, lemma_i64_bits_inverse, pow256, spec_be_bytes, spec_be_val,
};
use crate::data_types::reader::Reader;
use crate::data_types::strings::spec_prefixed_bytes;
use crate::error::SlpError;
use crate::profile::{spec_rich_text_json_of, DisconnectProfile, LookupResult, RichText, StatusProfile};
use crate::request::handshake::{spec_take_handshake, Handshake};
use crate::request::login::{spec_take_login, Login};
use crate::request::ping::Ping;
use crate::response::login_failure::LoginFailure;
use crate::response::pong::Pong;
use crate::response::status::{
    is_default_status, spec_status_json, spec_status_packet, status_matches_profile, Status,
    UuidPicker,
};

verus! {

/// Where one connection stands. A connection starts at `AwaitHandshake`,
/// branches on the handshake's next-state into the status or the login flow,
/// and ends at `Done`, after which the caller closes it.
#[derive(Debug)]
pub enum ConnState {
    /// Nothing received yet: the next packet must be the handshake.
    AwaitHandshake,
    /// Status flow: the next packet is a status request or a direct ping.
    AwaitStatusRequest { handshake: Handshake },
    /// Status flow: a profile lookup for the handshake's virtual host is out.
    AwaitStatusProfile { handshake: Handshake },
    /// Status flow: the status was sent; exactly one ping may follow.
    AwaitPing,
    /// Login flow: the next packet must be the login start.
    AwaitLoginStart { handshake: Handshake },
    /// Login flow: a disconnect-profile lookup is out.
    AwaitDisconnectProfile { login: Login },
    /// The response cycle is over.
    Done,
}

/// What the surrounding task hands the machine.
#[derive(Debug)]
pub enum Event {
    /// One packet frame's contents: everything after the length prefix.
    Packet { body: Vec<u8> },
    /// The store's answer to a status-profile lookup.
    StatusLookup { result: LookupResult<StatusProfile> },
    /// The store's answer to a disconnect-profile lookup.
    DisconnectLookup { result: LookupResult<DisconnectProfile> },
}

/// What the surrounding task must do next. After a `Send`, it writes the bytes
/// and then reads on — or closes, when the machine is `Done`.
#[derive(Debug)]
pub enum Action {
    /// Read the next packet.
    ReadPacket,
    /// Resolve the status profile of this virtual host and hand back the
    /// answer.
    ResolveStatus { host: String },
    /// Resolve the disconnect profile of this virtual host and hand back the
    /// answer.
    ResolveDisconnect { host: String },
    /// Write exactly these bytes.
    Send { bytes: Vec<u8> },
}

/// Which event each state awaits; `step` accepts nothing else, and `Done`
/// accepts nothing at all.
pub open spec fn expects(state: ConnState, event: Event) -> bool {
    match state {
        ConnState::AwaitHandshake => event is Packet,
        ConnState::AwaitStatusRequest { .. } => event is Packet,
        ConnState::AwaitStatusProfile { .. } => event is StatusLookup,
        ConnState::AwaitPing => event is Packet,
        ConnState::AwaitLoginStart { .. } => event is Packet,
        ConnState::AwaitDisconnectProfile { .. } => event is DisconnectLookup,
        ConnState::Done => false,
    }
}

/// A byte-exhaustion error inside a packet frame is `FrameExhausted`.
pub open spec fn frame_err(e: SlpError) -> SlpError {
    if e == SlpError::ShortRead {
        SlpError::FrameExhausted
    } else {
        e
    }
}

/// Why a handshake frame is rejected, or nothing when it is acceptable: it
/// must carry kind 0x00, decode as a handshake, and name next-state 1 or 2.
pub open spec fn spec_handshake_frame_err(body: Seq<u8>) -> Option<SlpError> {
    if body.len() == 0 {
        Some(SlpError::FrameExhausted)
    } else if body[0] != 0x00 {
        Some(SlpError::ProtocolViolation)
    } else {
        match spec_take_handshake(body.drop_first()) {
            Err(e) => Some(frame_err(e)),
            Ok(((pv, addr, port, ns), n)) => {
                if !valid_utf8(addr) {
                    Some(SlpError::InvalidText)
                } else if i32_of_bits(ns) != 1 && i32_of_bits(ns) != 2 {
                    Some(SlpError::ProtocolViolation)
                } else {
                    None
                }
            },
        }
    }
}

/// The handshake a valid handshake frame decodes to, field by field.
pub open spec fn spec_handshake_fields(body: Seq<u8>, h: Handshake) -> bool {
    match spec_take_handshake(body.drop_first()) {
        Ok(((pv, addr, port, ns), n)) => {
            &&& valid_utf8(addr)
            &&& h.protocol_version as int == i32_of_bits(pv)
            &&& h.server_address@ == decode_utf8(addr)
            &&& h.server_port as nat == port
            &&& h.next_state as int == i32_of_bits(ns)
        },
        Err(_) => false,
    }
}

/// The framed disconnect packet for a reason text.
pub open spec fn spec_disconnect_packet(text: Seq<char>) -> Seq<u8> {
    spec_prefixed_bytes(seq![0x00u8] + spec_prefixed_bytes(spec_rich_text_json_of(text)))
}

/// What handling the handshake packet must produce.
pub open spec fn handshake_arm(body: Seq<u8>, res: Result<(ConnState, Action), SlpError>) -> bool {
    match spec_handshake_frame_err(body) {
        Some(e) => res == Err::<(ConnState, Action), SlpError>(e),
        None => match res {
            Ok((s2, a)) => {
                &&& a is ReadPacket
                &&& match s2 {
                    ConnState::AwaitStatusRequest { handshake } => spec_handshake_fields(
                        body,
                        handshake,
                    ) && handshake.next_state == 1,
                    ConnState::AwaitLoginStart { handshake } => spec_handshake_fields(
                        body,
                        handshake,
                    ) && handshake.next_state == 2,
                    _ => false,
                }
            },
            Err(_) => false,
        },
    }
}

/// What answering a ping frame (kind already seen to be 0x01) must produce:
/// the pong that echoes the eight payload bytes, and a finished connection.
pub open spec fn ping_reply_arm(body: Seq<u8>, res: Result<(ConnState, Action), SlpError>) -> bool {
    if body.len() >= 9 {
        match res {
            Ok((s2, a)) => s2 is Done && (a matches Action::Send { bytes } && bytes@
                == spec_prefixed_bytes(
                seq![0x01u8] + spec_be_bytes(spec_be_val(body.drop_first().take(8)), 8),
            )),
            Err(_) => false,
        }
    } else {
        res == Err::<(ConnState, Action), SlpError>(SlpError::FrameExhausted)
    }
}

/// What handling the packet after the status handshake must produce: a status
/// request starts the profile lookup, a direct ping is answered at once,
/// anything else is a violation.
pub open spec fn status_request_arm(
    handshake: Handshake,
    body: Seq<u8>,
    res: Result<(ConnState, Action), SlpError>,
) -> bool {
    if body.len() == 0 {
        res == Err::<(ConnState, Action), SlpError>(SlpError::FrameExhausted)
    } else if body[0] == 0x00 {
        match res {
            Ok((s2, a)) => {
                &&& s2 matches ConnState::AwaitStatusProfile { handshake: h2 } && h2 == handshake
                &&& a matches Action::ResolveStatus { host } && host@ == handshake.server_address@
            },
            Err(_) => false,
        }
    } else if body[0] == 0x01 {
        ping_reply_arm(body, res)
    } else {
        res == Err::<(ConnState, Action), SlpError>(SlpError::ProtocolViolation)
    }
}

/// What handling the status-profile answer must produce: on a hit, a status
/// built from the profile; on a miss, the fixed default status; on a store
/// failure, a fatal lookup error. The send fails only past the frame limit.
pub open spec fn status_profile_arm(
    handshake: Handshake,
    result: LookupResult<StatusProfile>,
    picker: UuidPicker,
    res: Result<(ConnState, Action), SlpError>,
) -> bool {
    match result {
        LookupResult::Hit(p) => match res {
            Ok((s2, a)) => {
                &&& s2 is AwaitPing
                &&& a matches Action::Send { bytes } && (exists|st: Status|
                    {
                        &&& #[trigger] status_matches_profile(st, p, handshake, picker)
                        &&& spec_status_json(st).len() <= 0x7FFF_FF00
                        &&& bytes@ == spec_status_packet(st)
                    })
            },
            Err(e) => e == SlpError::OversizedFrame && (exists|st: Status|
                {
                    &&& #[trigger] status_matches_profile(st, p, handshake, picker)
                    &&& spec_status_json(st).len() > 0x7FFF_FF00
                }),
        },
        LookupResult::Miss => match res {
            Ok((s2, a)) => {
                &&& s2 is AwaitPing
                &&& a matches Action::Send { bytes } && (exists|st: Status|
                    {
                        &&& #[trigger] is_default_status(st)
                        &&& bytes@ == spec_status_packet(st)
                    })
            },
            Err(e) => e == SlpError::OversizedFrame && (exists|st: Status|
                {
                    &&& #[trigger] is_default_status(st)
                    &&& spec_status_json(st).len() > 0x7FFF_FF00
                }),
        },
        LookupResult::Failed => res == Err::<(ConnState, Action), SlpError>(
            SlpError::ConfigurationLookupFailed,
        ),
    }
}

/// What handling the packet in the post-status state must produce: only a ping
/// is allowed, and nothing is sent for a mismatched kind.
pub open spec fn await_ping_arm(
    body: Seq<u8>,
    res: Result<(ConnState, Action), SlpError>,
) -> bool {
    if body.len() == 0 {
        res == Err::<(ConnState, Action), SlpError>(SlpError::FrameExhausted)
    } else if body[0] == 0x01 {
        ping_reply_arm(body, res)
    } else {
        res == Err::<(ConnState, Action), SlpError>(SlpError::ProtocolViolation)
    }
}

/// What handling the login-start packet must produce: kind 0x00 and a decoded
/// login request start the disconnect-profile lookup.
pub open spec fn login_start_arm(
    handshake: Handshake,
    body: Seq<u8>,
    res: Result<(ConnState, Action), SlpError>,
) -> bool {
    if body.len() == 0 {
        res == Err::<(ConnState, Action), SlpError>(SlpError::FrameExhausted)
    } else if body[0] != 0x00 {
        res == Err::<(ConnState, Action), SlpError>(SlpError::ProtocolViolation)
    } else {
        match spec_take_login(body.drop_first()) {
            Err(e) => res == Err::<(ConnState, Action), SlpError>(frame_err(e)),
            Ok(((name, uuid), n)) => {
                if !valid_utf8(name) {
                    res == Err::<(ConnState, Action), SlpError>(SlpError::InvalidText)
                } else {
                    match res {
                        Ok((s2, a)) => {
                            &&& s2 matches ConnState::AwaitDisconnectProfile { login } && {
                                &&& login.player_name@ == decode_utf8(name)
                                &&& match (login.player_uuid, uuid) {
                                    (Some(u), Some(v)) => u as nat == v,
                                    (None, None) => true,
                                    _ => false,
                                }
                            }
                            &&& a matches Action::ResolveDisconnect { host } && host@
                                == handshake.server_address@
                        },
                        Err(_) => false,
                    }
                }
            },
        }
    }
}

/// What handling the disconnect-profile answer must produce: the configured
/// reason on a hit, a greeting naming the player on a miss, a fatal lookup
/// error on a store failure. This send ends the connection either way.
pub open spec fn disconnect_arm(
    login: Login,
    result: LookupResult<DisconnectProfile>,
    res: Result<(ConnState, Action), SlpError>,
) -> bool {
    match result {
        LookupResult::Hit(p) => {
            if spec_rich_text_json_of(p.reason.text@).len() <= 0x7FFF_FF00 {
                match res {
                    Ok((s2, a)) => s2 is Done && (a matches Action::Send { bytes } && bytes@
                        == spec_disconnect_packet(p.reason.text@)),
                    Err(_) => false,
                }
            } else {
                res == Err::<(ConnState, Action), SlpError>(SlpError::OversizedFrame)
            }
        },
        LookupResult::Miss => {
            let text = "Hello "@ + login.player_name@ + "!"@;
            if spec_rich_text_json_of(text).len() <= 0x7FFF_FF00 {
                match res {
                    Ok((s2, a)) => s2 is Done && (a matches Action::Send { bytes } && bytes@
                        == spec_disconnect_packet(text)),
                    Err(_) => false,
                }
            } else {
                res == Err::<(ConnState, Action), SlpError>(SlpError::OversizedFrame)
            }
        },
        LookupResult::Failed => res == Err::<(ConnState, Action), SlpError>(
            SlpError::ConfigurationLookupFailed,
        ),
    }
}

/// Answer a ping whose kind byte has been consumed from `r`.
fn reply_to_ping(r: &mut Reader) -> (res: Result<(ConnState, Action), SlpError>)
    requires
        old(r).wf(),
        old(r).is_framed(),
    ensures
        if old(r).remaining().len() >= 8 {
            match res {
                Ok((s2, a)) => s2 is Done && (a matches Action::Send { bytes } && bytes@
                    == spec_prefixed_bytes(
                    seq![0x01u8] + spec_be_bytes(spec_be_val(old(r).remaining().take(8)), 8),
                )),
                Err(_) => false,
            }
        } else {
            res == Err::<(ConnState, Action), SlpError>(SlpError::FrameExhausted)
        },
{
    let ping = match Ping::decode(r) {
        Ok(p) => p,
        Err(e) => {
            return Err(e);
        },
    };
    let pong = Pong::from_ping(ping);
    let bytes = pong.encode();
    proof {
        if old(r).remaining().len() >= 8 {
            let bits = spec_be_val(old(r).remaining().take(8));
            lemma_be_val_bound(old(r).remaining().take(8));
            assert(pow256(8) == 0x1_0000_0000_0000_0000) by {
                reveal_with_fuel(pow256, 9);
            };
            lemma_i64_bits_inverse(pong.spec_payload(), bits);
        }
    }
    Ok((ConnState::Done, Action::Send { bytes }))
}

/// Drive one connection forward by one event.
///
/// The caller runs the loop: it reads packets, resolves profiles and writes
/// bytes as the returned action says, feeds the next event in, and closes the
/// connection at `Done` or on any error, sending nothing further.
pub fn step(state: ConnState, event: Event, picker: &UuidPicker) -> (res: Result<
    (ConnState, Action),
    SlpError,
>)
    requires
        picker.wf(),
        expects(state, event),
        match event {
            Event::StatusLookup { result: LookupResult::Hit(p) } => match p.favicon {
                Some(b) => b@.len() <= 0x1FFF_FFFF,
                None => true,
            },
            _ => true,
        },
    ensures
        match (state, event) {
            (ConnState::AwaitHandshake, Event::Packet { body }) => handshake_arm(body@, res),
            (ConnState::AwaitStatusRequest { handshake }, Event::Packet { body }) =>
                status_request_arm(handshake, body@, res),
            (ConnState::AwaitStatusProfile { handshake }, Event::StatusLookup { result }) =>
                status_profile_arm(handshake, result, *picker, res),
            (ConnState::AwaitPing, Event::Packet { body }) => await_ping_arm(body@, res),
            (ConnState::AwaitLoginStart { handshake }, Event::Packet { body }) => login_start_arm(
                handshake,
                body@,
                res,
            ),
            (ConnState::AwaitDisconnectProfile { login }, Event::DisconnectLookup { result }) =>
                disconnect_arm(login, result, res),
            _ => true,
        },
{
    match (state, event) {
        (ConnState::AwaitHandshake, Event::Packet { body }) => {
            let mut r = Reader::frame(body);
            let kind = match r.read_u8() {
                Ok(k) => k,
                Err(e) => {
                    return Err(e);
                },
            };
            if kind != 0x00 {
                return Err(SlpError::ProtocolViolation);
            }
            let handshake = match Handshake::decode(&mut r) {
                Ok(h) => h,
                Err(e) => {
                    return Err(e);
                },
            };
            if handshake.next_state == 1 {
                Ok((ConnState::AwaitStatusRequest { handshake }, Action::ReadPacket))
            } else if handshake.next_state == 2 {
                Ok((ConnState::AwaitLoginStart { handshake }, Action::ReadPacket))
            } else {
                Err(SlpError::ProtocolViolation)
            }
        },
        (ConnState::AwaitStatusRequest { handshake }, Event::Packet { body }) => {
            let mut r = Reader::frame(body);
            let kind = match r.read_u8() {
                Ok(k) => k,
                Err(e) => {
                    return Err(e);
                },
            };
            if kind == 0x00 {
                let host = handshake.server_address.clone();
                Ok((ConnState::AwaitStatusProfile { handshake }, Action::ResolveStatus { host }))
            } else if kind == 0x01 {
                reply_to_ping(&mut r)
            } else {
                Err(SlpError::ProtocolViolation)
            }
        },
        (ConnState::AwaitStatusProfile { handshake }, Event::StatusLookup { result }) => {
            match result {
                LookupResult::Hit(p) => {
                    let st = Status::from_profile(&p, &handshake, picker);
                    match st.encode() {
                        Ok(bytes) => Ok((ConnState::AwaitPing, Action::Send { bytes })),
                        Err(e) => Err(e),
                    }
                },
                LookupResult::Miss => {
                    let st = Status::default();
                    match st.encode() {
                        Ok(bytes) => Ok((ConnState::AwaitPing, Action::Send { bytes })),
                        Err(e) => Err(e),
                    }
                },
                LookupResult::Failed => Err(SlpError::ConfigurationLookupFailed),
            }
        },
        (ConnState::AwaitPing, Event::Packet { body }) => {
            let mut r = Reader::frame(body);
            let kind = match r.read_u8() {
                Ok(k) => k,
                Err(e) => {
                    return Err(e);
                },
            };
            if kind == 0x01 {
                reply_to_ping(&mut r)
            } else {
                Err(SlpError::ProtocolViolation)
            }
        },
        (ConnState::AwaitLoginStart { handshake }, Event::Packet { body }) => {
            let mut r = Reader::frame(body);
            let kind = match r.read_u8() {
                Ok(k) => k,
                Err(e) => {
                    return Err(e);
                },
            };
            if kind != 0x00 {
                return Err(SlpError::ProtocolViolation);
            }
            let login = match Login::decode(&mut r) {
                Ok(l) => l,
                Err(e) => {
                    return Err(e);
                },
            };
            let host = handshake.server_address.clone();
            Ok((ConnState::AwaitDisconnectProfile { login }, Action::ResolveDisconnect { host }))
        },
        (ConnState::AwaitDisconnectProfile { login }, Event::DisconnectLookup { result }) => {
            match result {
                LookupResult::Hit(p) => {
                    let failure = LoginFailure { reason: p.reason };
                    match failure.encode() {
                        Ok(bytes) => Ok((ConnState::Done, Action::Send { bytes })),
                        Err(e) => Err(e),
                    }
                },
                LookupResult::Miss => {
                    let mut text = String::from_str("Hello ");
                    text.append(login.player_name.as_str());
                    text.append("!");
                    let failure = LoginFailure { reason: RichText { text } };
                    match failure.encode() {
                        Ok(bytes) => Ok((ConnState::Done, Action::Send { bytes })),
                        Err(e) => Err(e),
                    }
                },
                LookupResult::Failed => Err(SlpError::ConfigurationLookupFailed),
            }
        },
        _ => unreached(),
    }
}

} // verus!
