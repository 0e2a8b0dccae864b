use vstd::prelude::*;

use crate::data_types::fixed::{lemma_be_bytes_len, push_i64_be, spec_be_bytes, u64_of_i64};
use crate::data_types::strings::spec_prefixed_bytes;
use crate::packet::write_packet;
use crate::request::ping::Ping;

verus! {

/// The framed pong packet for a given payload: kind 0x01, then the payload's
/// eight big-endian bytes.
pub open spec fn spec_pong_packet_for(payload: i64) -> Seq<u8> {
    spec_prefixed_bytes(seq![0x01u8] + spec_be_bytes(u64_of_i64(payload), 8))
}

/// The answer to a ping: the same 64-bit payload, echoed byte-for-byte.
#[derive(Debug)]
pub struct Pong {
    payload: i64,
}

impl Pong {
    pub closed spec fn spec_payload(&self) -> i64 {
        self.payload
    }

    /// The pong that echoes the given ping.
    pub fn from_ping(ping: Ping) -> (r: Pong)
        ensures
            r.spec_payload() == ping.payload,
    {
        Pong { payload: ping.payload }
    }

    /// The framed pong packet: kind 0x01, then the payload's eight big-endian
    /// bytes.
    pub open spec fn spec_packet(&self) -> Seq<u8> {
        spec_pong_packet_for(self.spec_payload())
    }

    /// Frame this pong as the bytes to send.
    pub fn encode(&self) -> (out: Vec<u8>)
        ensures
            out@ == self.spec_packet(),
    {
        let mut payload: Vec<u8> = Vec::new();
        payload.push(0x01);
        push_i64_be(&mut payload, self.payload);
        proof {
            lemma_be_bytes_len(u64_of_i64(self.payload), 8);
            assert(payload@ =~= seq![0x01u8] + spec_be_bytes(u64_of_i64(self.spec_payload()), 8));
        }
        write_packet(&payload)
    }
}

} // verus!
