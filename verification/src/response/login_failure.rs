use vstd::prelude::*;

use crate::data_types::strings::{push_prefixed_bytes, spec_prefixed_bytes};
use crate::data_types::var_int::{lemma_varint_bytes_len, pow128};
use crate::error::SlpError;
use crate::packet::write_packet;
use crate::profile::{spec_rich_text_json, RichText};

verus! {

/// The only outcome of the login branch: a disconnect message; no session is
/// ever established.
#[derive(Debug)]
pub struct LoginFailure {
    pub reason: RichText,
}

impl LoginFailure {
    /// The JSON body of the disconnect packet: the reason as a rich-text
    /// object.
    pub open spec fn spec_json(&self) -> Seq<u8> {
        spec_rich_text_json(self.reason)
    }

    /// The framed disconnect packet: kind 0x00, then the JSON body as a
    /// length-prefixed string.
    pub open spec fn spec_packet(&self) -> Seq<u8> {
        spec_prefixed_bytes(seq![0x00u8] + spec_prefixed_bytes(self.spec_json()))
    }

    /// Frame this disconnect as the bytes to send; fails only when the reason
    /// text runs past the frame length limit.
    pub fn encode(&self) -> (res: Result<Vec<u8>, SlpError>)
        ensures
            match res {
                Ok(out) => self.spec_json().len() <= 0x7FFF_FF00 && out@ == self.spec_packet(),
                Err(e) => e == SlpError::OversizedFrame && self.spec_json().len() > 0x7FFF_FF00,
            },
    {
        let mut json: Vec<u8> = Vec::new();
        self.reason.push_json(&mut json);
        if json.len() > 0x7FFF_FF00 {
            return Err(SlpError::OversizedFrame);
        }
        let mut payload: Vec<u8> = Vec::new();
        payload.push(0x00);
        push_prefixed_bytes(&mut payload, &json);
        proof {
            assert(pow128(5) == 0x8_0000_0000) by {
                reveal_with_fuel(pow128, 6);
            };
            lemma_varint_bytes_len(json@.len(), 5);
            assert(payload@ =~= seq![0x00u8] + spec_prefixed_bytes(self.spec_json()));
        }
        Ok(write_packet(&payload))
    }
}

} // verus!
