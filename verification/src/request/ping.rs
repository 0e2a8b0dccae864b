use vstd::prelude::*;

use crate::data_types::fixed::{i64_of_bits, read_i64, spec_be_val};
use crate::data_types::reader::Reader;
use crate::error::SlpError;

verus! {

/// The ping request: an opaque 64-bit payload that the pong must echo
/// byte-for-byte.
#[derive(Debug)]
pub struct Ping {
    pub payload: i64,
}

impl Ping {
    /// Decode the ping payload — eight raw big-endian bytes — from a frame
    /// whose kind byte has already been consumed.
    pub fn decode(r: &mut Reader) -> (res: Result<Ping, SlpError>)
        requires
            old(r).wf(),
        ensures
            final(r).wf(),
            final(r).is_framed() == old(r).is_framed(),
            old(r).remaining().len() >= 8 ==> {
                &&& res matches Ok(p) && p.payload as int == i64_of_bits(
                    spec_be_val(old(r).remaining().take(8)),
                )
                &&& final(r).remaining() == old(r).remaining().skip(8)
            },
            old(r).remaining().len() < 8 ==> res == Err::<Ping, SlpError>(
                old(r).exhausted_err(),
            ),
    {
        match read_i64(r) {
            Ok(v) => Ok(Ping { payload: v }),
            Err(e) => Err(e),
        }
    }
}

} // verus!
