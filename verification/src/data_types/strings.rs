use vstd::arithmetic::div_mod::lemma_small_mod;
use vstd::prelude::*;
use vstd::string::StrSliceExecFns;
use vstd::utf8::{decode_utf8, encode_utf8, encode_utf8_decode_utf8, encode_utf8_valid_utf8, valid_utf8};

use crate::data_types::fixed::i32_of_bits;
use crate::data_types::reader::Reader;
use crate::data_types::var_int::{
    decode_var_int32, lemma_take_varint_consumed, lemma_varint_bytes_len, lemma_varint_round_trip,
    pow128, push_varint, spec_take_varint, spec_varint_bytes,
};
use crate::error::SlpError;
use crate::external::string_from_utf8;

verus! {

/// A length prefix, then that many raw bytes.
pub open spec fn spec_prefixed_bytes(b: Seq<u8>) -> Seq<u8> {
    spec_varint_bytes(b.len()) + b
}

/// Take a length-prefixed run of raw bytes from the head of `s`. The declared
/// length is authoritative: a source that cannot supply that many bytes is a
/// short read, and so is a negative declared length, which nothing can supply.
pub open spec fn spec_take_prefixed(s: Seq<u8>) -> Result<(Seq<u8>, nat), SlpError> {
    match spec_take_varint(s, 5) {
        Ok((v, n)) => {
            let len = i32_of_bits(v);
            if len < 0 {
                Err(SlpError::ShortRead)
            } else if s.len() < n + len {
                Err(SlpError::ShortRead)
            } else {
                Ok((s.skip(n as int).take(len), (n + len) as nat))
            }
        },
        Err(e) => Err(e),
    }
}

/// A successful prefixed take consumes at least one byte and never more than
/// the source holds.
pub proof fn lemma_take_prefixed_consumed(s: Seq<u8>)
    ensures
        spec_take_prefixed(s) matches Ok((b, n)) ==> 1 <= n <= s.len() && b.len() <= n,
{
    lemma_take_varint_consumed(s, 5);
}

/// Read a length prefix and exactly that many bytes.
pub fn read_prefixed_bytes(r: &mut Reader) -> (res: Result<Vec<u8>, SlpError>)
    requires
        old(r).wf(),
    ensures
        final(r).wf(),
        final(r).is_framed() == old(r).is_framed(),
        match spec_take_prefixed(old(r).remaining()) {
            Ok((b, n)) => {
                &&& res matches Ok(v) && v@ == b
                &&& final(r).remaining() == old(r).remaining().skip(n as int)
            },
            Err(e) => res == Err::<Vec<u8>, SlpError>(old(r).map_short(e)),
        },
{
    proof {
        lemma_take_varint_consumed(old(r).remaining(), 5);
    }
    let len = match decode_var_int32(r) {
        Ok(l) => l,
        Err(e) => {
            return Err(e);
        },
    };
    if len < 0 {
        return Err(r.exhausted_error());
    }
    let ghost mid = r.remaining();
    match r.read_bytes(len as usize) {
        Ok(v) => {
            proof {
                let (val, n): (nat, nat) = match spec_take_varint(old(r).remaining(), 5) {
                    Ok(p) => p,
                    Err(_) => (0, 0),
                };
                assert(mid.skip(len as int) =~= old(r).remaining().skip(n + len as int));
            }
            Ok(v)
        },
        Err(e) => Err(e),
    }
}

/// Append a length prefix and the bytes themselves.
pub fn push_prefixed_bytes(out: &mut Vec<u8>, b: &Vec<u8>)
    requires
        b@.len() <= 0x7FFF_FFFF,
    ensures
        final(out)@ == old(out)@ + spec_prefixed_bytes(b@),
{
    push_varint(out, b.len() as u64);
    out.extend_from_slice(b.as_slice());
    proof {
        assert(out@ =~= old(out)@ + spec_prefixed_bytes(b@));
    }
}

/// The wire form of a string: the byte length of its UTF-8 encoding, then the
/// encoding itself.
pub open spec fn spec_string_bytes(s: Seq<char>) -> Seq<u8> {
    spec_prefixed_bytes(encode_utf8(s))
}

/// Encode a string; fails only when its UTF-8 form runs past the frame length
/// limit of the wire format.
pub fn encode_string(s: &str) -> (res: Result<Vec<u8>, SlpError>)
    ensures
        match res {
            Ok(out) => encode_utf8(s@).len() <= 0x7FFF_FFFF && out@ == spec_string_bytes(s@),
            Err(e) => e == SlpError::OversizedFrame && encode_utf8(s@).len() > 0x7FFF_FFFF,
        },
{
    let bytes = s.as_bytes_vec();
    if bytes.len() > 0x7FFF_FFFF {
        return Err(SlpError::OversizedFrame);
    }
    let mut out: Vec<u8> = Vec::new();
    push_prefixed_bytes(&mut out, &bytes);
    Ok(out)
}

/// Decode a length-prefixed UTF-8 string. The declared byte count is read in
/// full or not at all, and bytes that are not UTF-8 are a decode failure,
/// never a truncated success.
pub fn decode_string(r: &mut Reader) -> (res: Result<String, SlpError>)
    requires
        old(r).wf(),
    ensures
        final(r).wf(),
        final(r).is_framed() == old(r).is_framed(),
        match spec_take_prefixed(old(r).remaining()) {
            Ok((b, n)) => {
                if valid_utf8(b) {
                    &&& res matches Ok(s) && s@ == decode_utf8(b)
                    &&& final(r).remaining() == old(r).remaining().skip(n as int)
                } else {
                    res == Err::<String, SlpError>(SlpError::InvalidText)
                }
            },
            Err(e) => res == Err::<String, SlpError>(old(r).map_short(e)),
        },
{
    let bytes = match read_prefixed_bytes(r) {
        Ok(b) => b,
        Err(e) => {
            return Err(e);
        },
    };
    match string_from_utf8(bytes) {
        Some(s) => Ok(s),
        None => Err(SlpError::InvalidText),
    }
}

/// Round trip for strings: the wire form of any string parses back to exactly
/// its UTF-8 bytes, whatever follows them, and those bytes decode to the
/// original characters — so decoding an encoded string yields the string.
pub proof fn lemma_string_round_trip(s: Seq<char>, rest: Seq<u8>)
    requires
        encode_utf8(s).len() <= 0x7FFF_FFFF,
    ensures
        spec_take_prefixed(spec_string_bytes(s) + rest) == Ok::<(Seq<u8>, nat), SlpError>(
            (encode_utf8(s), spec_string_bytes(s).len()),
        ),
        valid_utf8(encode_utf8(s)),
        decode_utf8(encode_utf8(s)) == s,
{
    let b = encode_utf8(s);
    lemma_prefixed_round_trip(b, rest);
    encode_utf8_valid_utf8(s);
    encode_utf8_decode_utf8(s);
}

/// Round trip for length-prefixed byte runs: framing a payload and parsing the
/// result gives the payload back and consumes exactly the frame.
pub proof fn lemma_prefixed_round_trip(b: Seq<u8>, rest: Seq<u8>)
    requires
        b.len() <= 0x7FFF_FFFF,
    ensures
        spec_take_prefixed(spec_prefixed_bytes(b) + rest) == Ok::<(Seq<u8>, nat), SlpError>(
            (b, spec_prefixed_bytes(b).len()),
        ),
{
    let vb = spec_varint_bytes(b.len());
    assert(pow128(5) == 0x8_0000_0000) by {
        reveal_with_fuel(pow128, 6);
    };
    lemma_varint_bytes_len(b.len(), 5);
    assert(spec_prefixed_bytes(b) + rest =~= vb + (b + rest));
    lemma_varint_round_trip(b.len(), b + rest, 5);
    lemma_small_mod(b.len(), 0x1_0000_0000);
    let s = spec_prefixed_bytes(b) + rest;
    assert(s.skip(vb.len() as int).take(b.len() as int) =~= b);
}

} // verus!
