//! The packet framer: a length-prefixed envelope around every packet. Reading
//! one hands out a bounded reader over exactly the declared byte count,
//! whatever the underlying source still holds; writing one measures the
//! payload and prepends its length.

use vstd::prelude::*;

use crate::data_types::reader::Reader;
use crate::data_types::strings::{
    push_prefixed_bytes, read_prefixed_bytes, spec_prefixed_bytes, spec_take_prefixed,
};
use crate::error::SlpError;

verus! {

/// Read one packet envelope: a bounded reader over exactly the declared byte
/// count. Reading past that count fails with `FrameExhausted` even when the
/// source has more data queued after the frame.
pub fn read_packet(r: &mut Reader) -> (res: Result<Reader, SlpError>)
    requires
        old(r).wf(),
    ensures
        final(r).wf(),
        final(r).is_framed() == old(r).is_framed(),
        match spec_take_prefixed(old(r).remaining()) {
            Ok((body, n)) => {
                &&& res matches Ok(p) && p.wf() && p.is_framed() && p.remaining() == body
                &&& final(r).remaining() == old(r).remaining().skip(n as int)
            },
            Err(e) => res == Err::<Reader, SlpError>(old(r).map_short(e)),
        },
{
    match read_prefixed_bytes(r) {
        Ok(body) => Ok(Reader::frame(body)),
        Err(e) => Err(e),
    }
}

/// Frame a payload: its byte count as a variable-length integer, then the
/// payload verbatim.
pub fn write_packet(payload: &Vec<u8>) -> (out: Vec<u8>)
    requires
        payload@.len() <= 0x7FFF_FFFF,
    ensures
        out@ == spec_prefixed_bytes(payload@),
{
    let mut out: Vec<u8> = Vec::new();
    push_prefixed_bytes(&mut out, payload);
    proof {
        assert(out@ =~= spec_prefixed_bytes(payload@));
    }
    out
}

/// The first byte of a frame: the packet kind discriminator.
pub fn read_packet_kind(r: &mut Reader) -> (res: Result<u8, SlpError>)
    requires
        old(r).wf(),
    ensures
        final(r).wf(),
        final(r).is_framed() == old(r).is_framed(),
        old(r).remaining().len() == 0 ==> {
            &&& res == Err::<u8, SlpError>(old(r).exhausted_err())
            &&& final(r).remaining() == old(r).remaining()
        },
        old(r).remaining().len() > 0 ==> {
            &&& res == Ok::<u8, SlpError>(old(r).remaining()[0])
            &&& final(r).remaining() == old(r).remaining().drop_first()
        },
{
    r.read_u8()
}

} // verus!
