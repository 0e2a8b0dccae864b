use vstd::prelude::*;
use vstd::utf8::{decode_utf8, valid_utf8};

use crate::data_types::fixed::{read_u128, spec_be_val};
use crate::data_types::reader::Reader;
use crate::data_types::strings::{
    lemma_take_prefixed_consumed, read_prefixed_bytes, spec_take_prefixed,
};
use crate::error::SlpError;
use crate::external::string_from_utf8;

verus! {

/// The login-start request: the name the client wants to play under, and the
/// identifier it sent with it where the protocol version carries one. A
/// missing or short identifier field is tolerated and mapped to absent, never
/// to a connection error.
#[derive(Debug)]
pub struct Login {
    pub player_name: String,
    pub player_uuid: Option<u128>,
}

/// The login field list at the head of `s`: a length-prefixed name, then 16
/// raw identifier bytes if that many are left, else nothing.
pub open spec fn spec_take_login(s: Seq<u8>) -> Result<((Seq<u8>, Option<nat>), nat), SlpError> {
    match spec_take_prefixed(s) {
        Err(e) => Err(e),
        Ok((name, n1)) => {
            let s1 = s.skip(n1 as int);
            if s1.len() >= 16 {
                Ok(((name, Some(spec_be_val(s1.take(16)))), (n1 + 16) as nat))
            } else {
                Ok(((name, None), n1))
            }
        },
    }
}

impl Login {
    /// Decode the login fields from a frame whose kind byte has already been
    /// consumed.
    pub fn decode(r: &mut Reader) -> (res: Result<Login, SlpError>)
        requires
            old(r).wf(),
        ensures
            final(r).wf(),
            final(r).is_framed() == old(r).is_framed(),
            match spec_take_login(old(r).remaining()) {
                Ok(((name, uuid), n)) => {
                    if valid_utf8(name) {
                        &&& res matches Ok(l)
                            && l.player_name@ == decode_utf8(name)
                            && (match (l.player_uuid, uuid) {
                                (Some(u), Some(v)) => u as nat == v,
                                (None, None) => true,
                                _ => false,
                            })
                        &&& final(r).remaining() == old(r).remaining().skip(n as int)
                    } else {
                        res == Err::<Login, SlpError>(SlpError::InvalidText)
                    }
                },
                Err(e) => res == Err::<Login, SlpError>(old(r).map_short(e)),
            },
    {
        proof {
            lemma_take_prefixed_consumed(old(r).remaining());
        }
        let name_bytes = match read_prefixed_bytes(r) {
            Ok(b) => b,
            Err(e) => {
                return Err(e);
            },
        };
        let ghost s1 = r.remaining();
        let player_uuid = match read_u128(r) {
            Ok(u) => Some(u),
            Err(_) => None,
        };
        let player_name = match string_from_utf8(name_bytes) {
            Some(s) => s,
            None => {
                return Err(SlpError::InvalidText);
            },
        };
        proof {
            let (name, n1): (Seq<u8>, nat) = match spec_take_prefixed(old(r).remaining()) {
                Ok(p) => p,
                Err(_) => (Seq::empty(), 0),
            };
            if s1.len() >= 16 {
                assert(r.remaining() =~= old(r).remaining().skip((n1 + 16) as int));
            }
        }
        Ok(Login { player_name, player_uuid })
    }
}

} // verus!
