use vstd::prelude::*;
use vstd::string::StringExecFns;
use vstd::utf8::encode_utf8;

use crate::data_types::strings::{push_prefixed_bytes, spec_prefixed_bytes};
use crate::data_types::var_int::{lemma_varint_bytes_len, pow128};
use crate::error::SlpError;
use crate::external::{base64_encode, base64_of, random_index};
use crate::json::{
    push_dec_i32, push_json_bool, push_json_str, push_lit, spec_dec_int, spec_json_bool,
    spec_json_string,
};
use crate::packet::write_packet;
use crate::profile::{spec_rich_text_json, RichText, StatusProfile};
use crate::request::handshake::Handshake;

verus! {

/// The version block of a status response.
#[derive(Debug)]
pub struct Version {
    pub name: String,
    pub protocol: i32,
}

/// One entry of the player sample shown on hover.
#[derive(Debug)]
pub struct Player {
    pub name: String,
    pub id: String,
}

/// The players block of a status response.
#[derive(Debug)]
pub struct Players {
    pub max: i32,
    pub online: i32,
    pub sample: Vec<Player>,
}

/// The status response: everything a server list shows for one server.
#[derive(Debug)]
pub struct Status {
    pub version: Version,
    pub players: Players,
    pub description: RichText,
    pub favicon: Option<String>,
    pub enforces_secure_chat: bool,
}

/// A fixed pool of decorative identifier strings; one is drawn uniformly at
/// random, independently, per player-sample slot.
#[derive(Debug)]
pub struct UuidPicker {
    uuids: Vec<String>,
}

impl UuidPicker {
    /// The pool's entries, as character strings.
    pub closed spec fn pool(&self) -> Seq<Seq<char>> {
        self.uuids@.map_values(|s: String| s@)
    }

    /// The pool must hold something to draw from.
    pub open spec fn wf(&self) -> bool {
        self.pool().len() > 0
    }

    /// A picker over a fixed, non-empty pool.
    pub fn new(uuids: Vec<String>) -> (r: UuidPicker)
        requires
            uuids@.len() > 0,
        ensures
            r.wf(),
            r.pool() == uuids@.map_values(|s: String| s@),
    {
        UuidPicker { uuids }
    }

    /// Draw one identifier uniformly at random, with replacement.
    pub fn next_uuid(&self) -> (r: String)
        requires
            self.wf(),
        ensures
            self.pool().contains(r@),
    {
        let i = random_index(self.uuids.len());
        let s = self.uuids[i].clone();
        proof {
            assert(self.pool()[i as int] == s@);
        }
        s
    }
}

/// The JSON form of one sample entry.
pub open spec fn spec_player_json(p: Player) -> Seq<u8> {
    encode_utf8("{\"name\":"@) + spec_json_string(encode_utf8(p.name@)) + encode_utf8(",\"id\":"@)
        + spec_json_string(encode_utf8(p.id@)) + encode_utf8("}"@)
}

/// The JSON form of a sample list's entries, comma-separated.
pub open spec fn spec_sample_items(ps: Seq<Player>) -> Seq<u8>
    decreases ps.len(),
{
    if ps.len() == 0 {
        Seq::empty()
    } else {
        spec_sample_items(ps.drop_last()) + (if ps.len() == 1 {
            Seq::<u8>::empty()
        } else {
            encode_utf8(","@)
        }) + spec_player_json(ps.last())
    }
}

/// The JSON form of the players block.
pub open spec fn spec_players_json(p: Players) -> Seq<u8> {
    encode_utf8("{\"max\":"@) + spec_dec_int(p.max as int) + encode_utf8(",\"online\":"@)
        + spec_dec_int(p.online as int) + encode_utf8(",\"sample\":["@) + spec_sample_items(
        p.sample@,
    ) + encode_utf8("]}"@)
}

/// The favicon as served: a PNG data URI around the base64 form of the bytes.
pub open spec fn spec_favicon_uri(bytes: Seq<u8>) -> Seq<char> {
    "data:image/png;base64,"@ + base64_of(bytes)
}

/// The full status JSON object, field for field in wire order; the favicon
/// entry is left out when there is none.
pub open spec fn spec_status_json(s: Status) -> Seq<u8> {
    encode_utf8("{\"version\":{\"name\":"@) + spec_json_string(encode_utf8(s.version.name@))
        + encode_utf8(",\"protocol\":"@) + spec_dec_int(s.version.protocol as int) + encode_utf8(
        "},\"players\":"@,
    ) + spec_players_json(s.players) + encode_utf8(",\"description\":"@) + spec_rich_text_json(
        s.description,
    ) + (match s.favicon {
        Some(f) => encode_utf8(",\"favicon\":"@) + spec_json_string(encode_utf8(f@)),
        None => Seq::<u8>::empty(),
    }) + encode_utf8(",\"enforcesSecureChat\":"@) + spec_json_bool(s.enforces_secure_chat)
        + encode_utf8("}"@)
}

/// The framed status packet: kind 0x00, then the JSON as a length-prefixed
/// string.
pub open spec fn spec_status_packet(s: Status) -> Seq<u8> {
    spec_prefixed_bytes(seq![0x00u8] + spec_prefixed_bytes(spec_status_json(s)))
}

/// How a composed status answer relates to the profile it came from: every
/// field determined, except the sample identifiers, which are random draws
/// from the picker's pool.
pub open spec fn status_matches_profile(
    r: Status,
    profile: StatusProfile,
    handshake: Handshake,
    picker: UuidPicker,
) -> bool {
    &&& r.version.name@ == profile.version_name@
    &&& r.version.protocol == if profile.respond_outdated_protocol {
        0i32
    } else {
        handshake.protocol_version
    }
    &&& r.players.max == profile.max_players
    &&& r.players.online == profile.players_online
    &&& r.players.sample@.len() == profile.hover_text@.len()
    &&& forall|i: int|
        0 <= i < profile.hover_text@.len() ==> (#[trigger] r.players.sample@[i]).name@
            == profile.hover_text@[i]@
    &&& forall|i: int|
        0 <= i < profile.hover_text@.len() ==> picker.pool().contains(
            (#[trigger] r.players.sample@[i]).id@,
        )
    &&& r.description.text@ == profile.motd.text@
    &&& match (r.favicon, profile.favicon) {
        (Some(f), Some(b)) => f@ == spec_favicon_uri(b@),
        (None, None) => true,
        _ => false,
    }
    &&& r.enforces_secure_chat == profile.enforces_secure_chat
}

/// The fixed fallback answer for an unresolved virtual host.
pub open spec fn is_default_status(r: Status) -> bool {
    &&& r.version.protocol == 0
    &&& r.version.name@ == "Placeholder"@
    &&& r.players.max == 0
    &&& r.players.online == 0
    &&& r.players.sample@.len() == 0
    &&& r.description.text@ == "This is a placeholder"@
    &&& r.favicon is None
    &&& !r.enforces_secure_chat
}

impl Player {
    fn push_json(&self, out: &mut Vec<u8>)
        ensures
            final(out)@ == old(out)@ + spec_player_json(*self),
    {
        push_lit(out, "{\"name\":");
        push_json_str(out, self.name.as_str());
        push_lit(out, ",\"id\":");
        push_json_str(out, self.id.as_str());
        push_lit(out, "}");
        proof {
            assert(out@ =~= old(out)@ + spec_player_json(*self));
        }
    }
}

impl Players {
    /// Build the players block: the configured counts, and one sample entry
    /// per hover-text line, each under a random identifier from the pool.
    pub fn compile(
        max_players: i32,
        players_online: i32,
        hover_text: Vec<String>,
        uuid_picker: &UuidPicker,
    ) -> (r: Players)
        requires
            uuid_picker.wf(),
        ensures
            r.max == max_players,
            r.online == players_online,
            r.sample@.len() == hover_text@.len(),
            forall|i: int|
                0 <= i < hover_text@.len() ==> (#[trigger] r.sample@[i]).name@ == hover_text@[i]@,
            forall|i: int|
                0 <= i < hover_text@.len() ==> uuid_picker.pool().contains(
                    (#[trigger] r.sample@[i]).id@,
                ),
    {
        let mut sample: Vec<Player> = Vec::new();
        let mut i: usize = 0;
        while i < hover_text.len()
            invariant
                uuid_picker.wf(),
                i <= hover_text@.len(),
                sample@.len() == i,
                forall|j: int|
                    0 <= j < i ==> (#[trigger] sample@[j]).name@ == hover_text@[j]@,
                forall|j: int|
                    0 <= j < i ==> uuid_picker.pool().contains((#[trigger] sample@[j]).id@),
            decreases hover_text@.len() - i,
        {
            let name = hover_text[i].clone();
            let id = uuid_picker.next_uuid();
            sample.push(Player { name, id });
            i = i + 1;
        }
        Players { max: max_players, online: players_online, sample }
    }

    fn push_json(&self, out: &mut Vec<u8>)
        ensures
            final(out)@ == old(out)@ + spec_players_json(*self),
    {
        push_lit(out, "{\"max\":");
        push_dec_i32(out, self.max);
        push_lit(out, ",\"online\":");
        push_dec_i32(out, self.online);
        push_lit(out, ",\"sample\":[");
        let ghost mid = out@;
        let mut i: usize = 0;
        while i < self.sample.len()
            invariant
                i <= self.sample@.len(),
                out@ == mid + spec_sample_items(self.sample@.take(i as int)),
            decreases self.sample@.len() - i,
        {
            if i > 0 {
                push_lit(out, ",");
            }
            self.sample[i].push_json(out);
            i = i + 1;
            proof {
                assert(self.sample@.take(i as int).drop_last() =~= self.sample@.take(i - 1));
                assert(out@ =~= mid + spec_sample_items(self.sample@.take(i as int)));
            }
        }
        push_lit(out, "]}");
        proof {
            assert(self.sample@.take(self.sample@.len() as int) =~= self.sample@);
            assert(out@ =~= old(out)@ + spec_players_json(*self));
        }
    }
}

/// The favicon bytes as a PNG data URI, ready for the status JSON.
pub fn favicon_to_base64(bytes: &Vec<u8>) -> (r: String)
    requires
        bytes@.len() <= 0x1FFF_FFFF,
    ensures
        r@ == spec_favicon_uri(bytes@),
{
    let encoded = base64_encode(bytes);
    let mut out = String::from_str("data:image/png;base64,");
    out.append(encoded.as_str());
    out
}

impl Status {
    /// Compose the status answer for a resolved profile: the version name and
    /// counts come from the profile; the protocol echoes the handshake's
    /// version unless the profile asks to answer as outdated, which pins it to
    /// zero; every hover line becomes a sample entry under a random pool
    /// identifier; the favicon, if any, is served as a data URI.
    pub fn from_profile(profile: &StatusProfile, handshake: &Handshake, picker: &UuidPicker) -> (r:
        Status)
        requires
            picker.wf(),
            profile.favicon matches Some(b) ==> b@.len() <= 0x1FFF_FFFF,
        ensures
            status_matches_profile(r, *profile, *handshake, *picker),
    {
        let protocol = if profile.respond_outdated_protocol {
            0
        } else {
            handshake.protocol_version
        };
        let version = Version { name: profile.version_name.clone(), protocol };
        let players = Players::compile(
            profile.max_players,
            profile.players_online,
            profile.hover_text.clone(),
            picker,
        );
        let favicon = match &profile.favicon {
            Some(bytes) => Some(favicon_to_base64(bytes)),
            None => None,
        };
        Status {
            version,
            players,
            description: RichText { text: profile.motd.text.clone() },
            favicon,
            enforces_secure_chat: profile.enforces_secure_chat,
        }
    }

    /// The status JSON text, as UTF-8 bytes.
    pub fn to_json(&self) -> (out: Vec<u8>)
        ensures
            out@ == spec_status_json(*self),
    {
        let mut out: Vec<u8> = Vec::new();
        push_lit(&mut out, "{\"version\":{\"name\":");
        push_json_str(&mut out, self.version.name.as_str());
        push_lit(&mut out, ",\"protocol\":");
        push_dec_i32(&mut out, self.version.protocol);
        push_lit(&mut out, "},\"players\":");
        self.players.push_json(&mut out);
        push_lit(&mut out, ",\"description\":");
        self.description.push_json(&mut out);
        match &self.favicon {
            Some(f) => {
                push_lit(&mut out, ",\"favicon\":");
                push_json_str(&mut out, f.as_str());
            },
            None => {},
        }
        push_lit(&mut out, ",\"enforcesSecureChat\":");
        push_json_bool(&mut out, self.enforces_secure_chat);
        push_lit(&mut out, "}");
        proof {
            assert(out@ =~= spec_status_json(*self));
        }
        out
    }

    /// Frame this status as the bytes to send; fails only when the JSON runs
    /// past the frame length limit.
    pub fn encode(&self) -> (res: Result<Vec<u8>, SlpError>)
        ensures
            match res {
                Ok(out) => spec_status_json(*self).len() <= 0x7FFF_FF00 && out@
                    == spec_status_packet(*self),
                Err(e) => e == SlpError::OversizedFrame && spec_status_json(*self).len()
                    > 0x7FFF_FF00,
            },
    {
        let json = self.to_json();
        if json.len() > 0x7FFF_FF00 {
            return Err(SlpError::OversizedFrame);
        }
        let mut payload: Vec<u8> = Vec::new();
        payload.push(0x00);
        push_prefixed_bytes(&mut payload, &json);
        proof {
            assert(pow128(5) == 0x8_0000_0000) by {
                reveal_with_fuel(pow128, 6);
            };
            lemma_varint_bytes_len(json@.len(), 5);
            assert(payload@ =~= seq![0x00u8] + spec_prefixed_bytes(spec_status_json(*self)));
        }
        Ok(write_packet(&payload))
    }
}

impl Default for Status {
    /// The fixed fallback answer for an unresolved virtual host: placeholder
    /// version text pinned to protocol zero, an empty player list, a
    /// placeholder description, no favicon.
    fn default() -> (r: Status)
        ensures
            is_default_status(r),
    {
        Status {
            version: Version { protocol: 0, name: String::from_str("Placeholder") },
            players: Players { max: 0, online: 0, sample: Vec::new() },
            description: RichText { text: String::from_str("This is a placeholder") },
            favicon: None,
            enforces_secure_chat: false,
        }
    }
}

} // verus!
