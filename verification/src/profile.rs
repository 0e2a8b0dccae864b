//! What the external configuration store answers for a virtual host, modelled
//! as plain values, and the rich-text form this crate serves.

use vstd::prelude::*;
use vstd::utf8::encode_utf8;

use crate::json::{push_json_str, push_lit, spec_json_string};

verus! {

/// A structured chat message. This crate models the plain-text form, which
/// serializes as a `{"text": ...}` object.
#[derive(Debug, Clone, PartialEq)]
pub struct RichText {
    pub text: String,
}

/// The JSON form of a rich-text message with the given text.
pub open spec fn spec_rich_text_json_of(text: Seq<char>) -> Seq<u8> {
    encode_utf8("{\"text\":"@) + spec_json_string(encode_utf8(text)) + encode_utf8("}"@)
}

/// The JSON form of a rich-text message.
pub open spec fn spec_rich_text_json(t: RichText) -> Seq<u8> {
    spec_rich_text_json_of(t.text@)
}

impl RichText {
    /// Append this message's JSON form.
    pub fn push_json(&self, out: &mut Vec<u8>)
        ensures
            final(out)@ == old(out)@ + spec_rich_text_json(*self),
    {
        push_lit(out, "{\"text\":");
        push_json_str(out, self.text.as_str());
        push_lit(out, "}");
        proof {
            assert(out@ =~= old(out)@ + spec_rich_text_json(*self));
        }
    }
}

/// The per-virtual-host status configuration, resolved by the external store
/// and handed to this crate as plain values.
#[derive(Debug, Clone, PartialEq)]
pub struct StatusProfile {
    pub version_name: String,
    pub respond_outdated_protocol: bool,
    pub hover_text: Vec<String>,
    pub max_players: i32,
    pub players_online: i32,
    pub favicon: Option<Vec<u8>>,
    pub enforces_secure_chat: bool,
    pub motd: RichText,
}

/// The per-virtual-host login-rejection configuration.
#[derive(Debug, Clone, PartialEq)]
pub struct DisconnectProfile {
    pub reason: RichText,
}

/// What the external store answered for one lookup: a profile, a clean miss,
/// or a store failure.
#[derive(Debug)]
pub enum LookupResult<T> {
    Hit(T),
    Miss,
    Failed,
}

} // verus!
