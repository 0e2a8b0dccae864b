use vstd::prelude::*;
use vstd::utf8::{decode_utf8, valid_utf8};

use crate::data_types::fixed::{i32_of_bits, read_u16, spec_be_val};
use crate::data_types::reader::Reader;
use crate::data_types::strings::{
    lemma_take_prefixed_consumed, read_prefixed_bytes, spec_take_prefixed,
};
use crate::data_types::var_int::{
    decode_var_int32, lemma_take_varint_consumed, spec_take_varint,
};
use crate::error::SlpError;
use crate::external::string_from_utf8;

verus! {

/// The first packet of every connection: the client's protocol version, the
/// virtual host it addressed, the port it used, and which sub-protocol it
/// wants next (1 = status, 2 = login).
#[derive(Debug)]
pub struct Handshake {
    pub protocol_version: i32,
    pub server_address: String,
    pub server_port: u16,
    pub next_state: i32,
}

/// The handshake field list at the head of `s`: a variable-length protocol
/// version, a length-prefixed address, a two-byte big-endian port, and a
/// variable-length next-state. Values are raw: the integers untruncated, the
/// address still bytes.
pub open spec fn spec_take_handshake(s: Seq<u8>) -> Result<
    ((nat, Seq<u8>, nat, nat), nat),
    SlpError,
> {
    match spec_take_varint(s, 5) {
        Err(e) => Err(e),
        Ok((pv, n1)) => {
            let s1 = s.skip(n1 as int);
            match spec_take_prefixed(s1) {
                Err(e) => Err(e),
                Ok((addr, n2)) => {
                    let s2 = s1.skip(n2 as int);
                    if s2.len() < 2 {
                        Err(SlpError::ShortRead)
                    } else {
                        match spec_take_varint(s2.skip(2), 5) {
                            Err(e) => Err(e),
                            Ok((ns, n3)) => Ok(
                                (
                                    (pv, addr, spec_be_val(s2.take(2)), ns),
                                    (n1 + n2 + 2 + n3) as nat,
                                ),
                            ),
                        }
                    }
                },
            }
        },
    }
}

impl Handshake {
    /// Decode the handshake fields from a frame whose kind byte has already
    /// been consumed.
    pub fn decode(r: &mut Reader) -> (res: Result<Handshake, SlpError>)
        requires
            old(r).wf(),
        ensures
            final(r).wf(),
            final(r).is_framed() == old(r).is_framed(),
            match spec_take_handshake(old(r).remaining()) {
                Ok(((pv, addr, port, ns), n)) => {
                    if valid_utf8(addr) {
                        &&& res matches Ok(h)
                            && h.protocol_version as int == i32_of_bits(pv)
                            && h.server_address@ == decode_utf8(addr)
                            && h.server_port as nat == port
                            && h.next_state as int == i32_of_bits(ns)
                        &&& final(r).remaining() == old(r).remaining().skip(n as int)
                    } else {
                        res == Err::<Handshake, SlpError>(SlpError::InvalidText)
                    }
                },
                Err(e) => res == Err::<Handshake, SlpError>(old(r).map_short(e)),
            },
    {
        proof {
            lemma_take_varint_consumed(old(r).remaining(), 5);
        }
        let protocol_version = match decode_var_int32(r) {
            Ok(v) => v,
            Err(e) => {
                return Err(e);
            },
        };
        let ghost s1 = r.remaining();
        proof {
            lemma_take_prefixed_consumed(s1);
        }
        let addr_bytes = match read_prefixed_bytes(r) {
            Ok(b) => b,
            Err(e) => {
                return Err(e);
            },
        };
        let ghost s2 = r.remaining();
        let server_port = match read_u16(r) {
            Ok(p) => p,
            Err(e) => {
                return Err(e);
            },
        };
        let ghost s3 = r.remaining();
        proof {
            lemma_take_varint_consumed(s3, 5);
            assert(s3 =~= s2.skip(2));
        }
        let next_state = match decode_var_int32(r) {
            Ok(v) => v,
            Err(e) => {
                return Err(e);
            },
        };
        let server_address = match string_from_utf8(addr_bytes) {
            Some(s) => s,
            None => {
                return Err(SlpError::InvalidText);
            },
        };
        proof {
            let s0 = old(r).remaining();
            let (pv, n1): (nat, nat) = match spec_take_varint(s0, 5) {
                Ok(p) => p,
                Err(_) => (0, 0),
            };
            let (addr, n2): (Seq<u8>, nat) = match spec_take_prefixed(s1) {
                Ok(p) => p,
                Err(_) => (Seq::empty(), 0),
            };
            let (ns, n3): (nat, nat) = match spec_take_varint(s3, 5) {
                Ok(p) => p,
                Err(_) => (0, 0),
            };
            assert(r.remaining() =~= s0.skip((n1 + n2 + 2 + n3) as int));
        }
        Ok(Handshake { protocol_version, server_address, server_port, next_state })
    }
}

} // verus!
