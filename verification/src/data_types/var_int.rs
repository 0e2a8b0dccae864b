use vstd::arithmetic::div_mod::{
    lemma_add_mod_noop, lemma_fundamental_div_mod, lemma_mul_mod_noop_right, lemma_small_mod,
};
use vstd::prelude::*;

use crate::data_types::fixed::{
    i32_from_bits, i32_of_bits, i64_from_bits, i64_of_bits, u32_from_i32, u32_of_i32, u64_from_i64,
    u64_of_i64,
};
use crate::data_types::reader::Reader;
use crate::error::SlpError;

verus! {

/// 128 to the power `k`: the number of values that fit in `k` groups of 7 bits.
pub open spec fn pow128(k: nat) -> nat
    decreases k,
{
    if k == 0 {
        1
    } else {
        0x80 * pow128((k - 1) as nat)
    }
}

/// The wire encoding of an unsigned value: 7 bits per byte, least-significant
/// group first, the high bit of every byte but the last set as a continuation
/// mark.
pub open spec fn spec_varint_bytes(v: nat) -> Seq<u8>
    decreases v,
{
    if v < 0x80 {
        seq![v as u8]
    } else {
        seq![((v % 0x80) + 0x80) as u8] + spec_varint_bytes(v / 0x80)
    }
}

/// Decoding a variable-length integer from the head of `s`, allowed to span at
/// most `budget` bytes. Gives the full (untruncated) value and the number of
/// bytes consumed; `ShortRead` when the source ends inside the run,
/// `MalformedVarInt` when the last allowed byte still carries the continuation
/// mark.
pub open spec fn spec_take_varint(s: Seq<u8>, budget: nat) -> Result<(nat, nat), SlpError>
    decreases budget,
{
    if s.len() == 0 {
        Err(SlpError::ShortRead)
    } else if s[0] < 0x80 {
        Ok((s[0] as nat, 1))
    } else if budget <= 1 {
        Err(SlpError::MalformedVarInt)
    } else {
        match spec_take_varint(s.drop_first(), (budget - 1) as nat) {
            Ok((v, n)) => Ok((((s[0] - 0x80) as nat) + 0x80 * v, n + 1)),
            Err(e) => Err(e),
        }
    }
}

/// A successful parse consumes at least one byte and never more than the
/// source holds.
pub proof fn lemma_take_varint_consumed(s: Seq<u8>, budget: nat)
    ensures
        spec_take_varint(s, budget) matches Ok((v, n)) ==> 1 <= n <= s.len(),
    decreases budget,
{
    if s.len() > 0 && s[0] >= 0x80 && budget > 1 {
        lemma_take_varint_consumed(s.drop_first(), (budget - 1) as nat);
    }
}

/// Read a variable-length run of at most `budget` bytes, truncating the value
/// to its low 32 bits as the 32-bit decoder does.
fn take_varint_u32(r: &mut Reader, budget: u32) -> (res: Result<u32, SlpError>)
    requires
        old(r).wf(),
        1 <= budget,
    ensures
        final(r).wf(),
        final(r).is_framed() == old(r).is_framed(),
        match spec_take_varint(old(r).remaining(), budget as nat) {
            Ok((v, n)) => {
                &&& res matches Ok(w) && w as nat == v % 0x1_0000_0000
                &&& final(r).remaining() == old(r).remaining().skip(n as int)
            },
            Err(e) => res == Err::<u32, SlpError>(old(r).map_short(e)),
        },
    decreases budget,
{
    let b = match r.read_u8() {
        Ok(b) => b,
        Err(e) => {
            return Err(e);
        },
    };
    if b < 0x80 {
        proof {
            lemma_small_mod(b as nat, 0x1_0000_0000);
            assert(r.remaining() =~= old(r).remaining().skip(1));
        }
        Ok(b as u32)
    } else if budget == 1 {
        Err(SlpError::MalformedVarInt)
    } else {
        match take_varint_u32(r, budget - 1) {
            Ok(v) => {
                let g = (b - 0x80) as u64;
                let w = ((g + 0x80u64 * (v as u64)) % 0x1_0000_0000) as u32;
                proof {
                    let m = 0x1_0000_0000int;
                    let tail = old(r).remaining().drop_first();
                    let (full, nn): (nat, nat) = match spec_take_varint(
                        tail,
                        (budget - 1) as nat,
                    ) {
                        Ok(p) => p,
                        Err(_) => (0, 0),
                    };
                    lemma_mul_mod_noop_right(0x80int, full as int, m);
                    lemma_add_mod_noop(g as int, 0x80 * (full as int), m);
                    lemma_add_mod_noop(g as int, 0x80 * ((full as int) % m), m);
                    lemma_small_mod(g as nat, m as nat);
                    lemma_take_varint_consumed(tail, (budget - 1) as nat);
                    assert(tail.skip(nn as int) =~= old(r).remaining().skip(nn as int + 1));
                }
                Ok(w)
            },
            Err(e) => Err(e),
        }
    }
}

/// Read a variable-length run of at most `budget` bytes, truncating the value
/// to its low 64 bits as the 64-bit decoder does.
fn take_varint_u64(r: &mut Reader, budget: u32) -> (res: Result<u64, SlpError>)
    requires
        old(r).wf(),
        1 <= budget,
    ensures
        final(r).wf(),
        final(r).is_framed() == old(r).is_framed(),
        match spec_take_varint(old(r).remaining(), budget as nat) {
            Ok((v, n)) => {
                &&& res matches Ok(w) && w as nat == v % 0x1_0000_0000_0000_0000
                &&& final(r).remaining() == old(r).remaining().skip(n as int)
            },
            Err(e) => res == Err::<u64, SlpError>(old(r).map_short(e)),
        },
    decreases budget,
{
    let b = match r.read_u8() {
        Ok(b) => b,
        Err(e) => {
            return Err(e);
        },
    };
    if b < 0x80 {
        proof {
            lemma_small_mod(b as nat, 0x1_0000_0000_0000_0000);
            assert(r.remaining() =~= old(r).remaining().skip(1));
        }
        Ok(b as u64)
    } else if budget == 1 {
        Err(SlpError::MalformedVarInt)
    } else {
        match take_varint_u64(r, budget - 1) {
            Ok(v) => {
                let g = (b - 0x80) as u128;
                let w = ((g + 0x80u128 * (v as u128)) % 0x1_0000_0000_0000_0000) as u64;
                proof {
                    let m = 0x1_0000_0000_0000_0000int;
                    let tail = old(r).remaining().drop_first();
                    let (full, nn): (nat, nat) = match spec_take_varint(
                        tail,
                        (budget - 1) as nat,
                    ) {
                        Ok(p) => p,
                        Err(_) => (0, 0),
                    };
                    lemma_mul_mod_noop_right(0x80int, full as int, m);
                    lemma_add_mod_noop(g as int, 0x80 * (full as int), m);
                    lemma_add_mod_noop(g as int, 0x80 * ((full as int) % m), m);
                    lemma_small_mod(g as nat, m as nat);
                    lemma_take_varint_consumed(tail, (budget - 1) as nat);
                    assert(tail.skip(nn as int) =~= old(r).remaining().skip(nn as int + 1));
                }
                Ok(w)
            },
            Err(e) => Err(e),
        }
    }
}

/// Decode a 32-bit variable-length integer: at most 5 bytes.
pub fn decode_var_int32(r: &mut Reader) -> (res: Result<i32, SlpError>)
    requires
        old(r).wf(),
    ensures
        final(r).wf(),
        final(r).is_framed() == old(r).is_framed(),
        match spec_take_varint(old(r).remaining(), 5) {
            Ok((v, n)) => {
                &&& res matches Ok(w) && w as int == i32_of_bits(v)
                &&& final(r).remaining() == old(r).remaining().skip(n as int)
            },
            Err(e) => res == Err::<i32, SlpError>(old(r).map_short(e)),
        },
{
    match take_varint_u32(r, 5) {
        Ok(w) => {
            proof {
                lemma_small_mod(w as nat, 0x1_0000_0000);
            }
            Ok(i32_from_bits(w))
        },
        Err(e) => Err(e),
    }
}

/// Decode a 64-bit variable-length integer: at most 10 bytes.
pub fn decode_var_int64(r: &mut Reader) -> (res: Result<i64, SlpError>)
    requires
        old(r).wf(),
    ensures
        final(r).wf(),
        final(r).is_framed() == old(r).is_framed(),
        match spec_take_varint(old(r).remaining(), 10) {
            Ok((v, n)) => {
                &&& res matches Ok(w) && w as int == i64_of_bits(v)
                &&& final(r).remaining() == old(r).remaining().skip(n as int)
            },
            Err(e) => res == Err::<i64, SlpError>(old(r).map_short(e)),
        },
{
    match take_varint_u64(r, 10) {
        Ok(w) => {
            proof {
                lemma_small_mod(w as nat, 0x1_0000_0000_0000_0000);
            }
            Ok(i64_from_bits(w))
        },
        Err(e) => Err(e),
    }
}

/// Append the variable-length encoding of an unsigned value.
pub fn push_varint(out: &mut Vec<u8>, v: u64)
    ensures
        final(out)@ == old(out)@ + spec_varint_bytes(v as nat),
    decreases v,
{
    if v < 0x80 {
        out.push(v as u8);
        proof {
            assert(out@ =~= old(out)@ + spec_varint_bytes(v as nat));
        }
    } else {
        out.push(((v % 0x80) + 0x80) as u8);
        push_varint(out, v / 0x80);
        proof {
            assert(out@ =~= old(out)@ + spec_varint_bytes(v as nat));
        }
    }
}

/// Encode a 32-bit value: its two's-complement bit pattern, 7 bits at a time.
pub fn encode_var_int32(v: i32) -> (out: Vec<u8>)
    ensures
        out@ == spec_varint_bytes(u32_of_i32(v)),
{
    let u = u32_from_i32(v);
    let mut out: Vec<u8> = Vec::new();
    push_varint(&mut out, u as u64);
    out
}

/// Encode a 64-bit value: its two's-complement bit pattern, 7 bits at a time.
pub fn encode_var_int64(v: i64) -> (out: Vec<u8>)
    ensures
        out@ == spec_varint_bytes(u64_of_i64(v)),
{
    let u = u64_from_i64(v);
    let mut out: Vec<u8> = Vec::new();
    push_varint(&mut out, u);
    out
}

/// Decoding the encoding of any unsigned value gives the value back and
/// consumes exactly the encoded bytes, whatever follows them, as long as the
/// byte budget covers the encoding.
pub proof fn lemma_varint_round_trip(v: nat, rest: Seq<u8>, budget: nat)
    requires
        spec_varint_bytes(v).len() <= budget,
    ensures
        spec_take_varint(spec_varint_bytes(v) + rest, budget) == Ok::<(nat, nat), SlpError>(
            (v, spec_varint_bytes(v).len()),
        ),
    decreases v,
{
    let s = spec_varint_bytes(v) + rest;
    if v < 0x80 {
        assert(s[0] == v as u8);
    } else {
        assert(s[0] == ((v % 0x80) + 0x80) as u8);
        assert(s.drop_first() =~= spec_varint_bytes(v / 0x80) + rest);
        lemma_varint_round_trip(v / 0x80, rest, (budget - 1) as nat);
        lemma_fundamental_div_mod(v as int, 0x80);
    }
}

/// An encoding never exceeds `k` bytes when the value fits in `k` 7-bit groups.
pub proof fn lemma_varint_bytes_len(v: nat, k: nat)
    requires
        1 <= k,
        v < pow128(k),
    ensures
        spec_varint_bytes(v).len() <= k,
    decreases k,
{
    if v >= 0x80 {
        lemma_fundamental_div_mod(v as int, 0x80);
        assert(pow128(k) == 0x80 * pow128((k - 1) as nat));
        lemma_varint_bytes_len(v / 0x80, (k - 1) as nat);
    }
}

/// The encoding is minimal: the final byte never carries the continuation
/// mark, every earlier byte does, and a value that needs `k` bytes is at least
/// `128^(k-1)` — so no value is encoded with a trailing empty continuation
/// byte.
pub proof fn lemma_varint_bytes_minimal(v: nat)
    ensures
        1 <= spec_varint_bytes(v).len(),
        spec_varint_bytes(v).last() < 0x80,
        forall|i: int|
            0 <= i < spec_varint_bytes(v).len() - 1 ==> #[trigger] spec_varint_bytes(v)[i] >= 0x80,
        v < pow128(spec_varint_bytes(v).len()),
        spec_varint_bytes(v).len() > 1 ==> v >= pow128((spec_varint_bytes(v).len() - 1) as nat),
    decreases v,
{
    let bytes = spec_varint_bytes(v);
    if v < 0x80 {
        assert(pow128(1) == 0x80 * pow128(0));
    } else {
        let tail = spec_varint_bytes(v / 0x80);
        lemma_varint_bytes_minimal(v / 0x80);
        assert(bytes.last() == tail.last());
        assert(forall|i: int| 1 <= i < bytes.len() ==> bytes[i] == #[trigger] tail[i - 1]);
        lemma_fundamental_div_mod(v as int, 0x80);
        assert(pow128(bytes.len() as nat) == 0x80 * pow128(tail.len() as nat));
        if tail.len() > 1 {
            assert(pow128(tail.len() as nat) == 0x80 * pow128((tail.len() - 1) as nat));
        }
    }
}

/// The length defense: when every byte of the whole budget still carries the
/// continuation mark, decoding fails with `MalformedVarInt` — so a 32-bit run
/// whose fifth byte continues is rejected, and a 64-bit run whose tenth byte
/// continues likewise.
pub proof fn lemma_varint_too_long(s: Seq<u8>, budget: nat)
    requires
        1 <= budget <= s.len(),
        forall|i: int| 0 <= i < budget ==> s[i] >= 0x80,
    ensures
        spec_take_varint(s, budget) == Err::<(nat, nat), SlpError>(SlpError::MalformedVarInt),
    decreases budget,
{
    if budget > 1 {
        lemma_varint_too_long(s.drop_first(), (budget - 1) as nat);
    }
}

/// Round trip for 32-bit values: the encoding of any `i32` is at most 5 bytes,
/// decodes to exactly the value's bit pattern however many bytes follow it,
/// and the bit pattern reads back as the value.
pub proof fn lemma_var_int32_round_trip(v: i32, rest: Seq<u8>)
    ensures
        1 <= spec_varint_bytes(u32_of_i32(v)).len() <= 5,
        spec_take_varint(spec_varint_bytes(u32_of_i32(v)) + rest, 5) == Ok::<
            (nat, nat),
            SlpError,
        >((u32_of_i32(v), spec_varint_bytes(u32_of_i32(v)).len())),
        i32_of_bits(u32_of_i32(v)) == v as int,
{
    let u = u32_of_i32(v);
    assert(pow128(5) == 0x8_0000_0000) by {
        reveal_with_fuel(pow128, 6);
    };
    lemma_varint_bytes_len(u, 5);
    lemma_varint_bytes_minimal(u);
    lemma_varint_round_trip(u, rest, 5);
    crate::data_types::fixed::lemma_i32_bits_round_trip(v);
}

/// Round trip for 64-bit values: the encoding of any `i64` is at most 10
/// bytes, decodes to exactly the value's bit pattern however many bytes follow
/// it, and the bit pattern reads back as the value.
pub proof fn lemma_var_int64_round_trip(v: i64, rest: Seq<u8>)
    ensures
        1 <= spec_varint_bytes(u64_of_i64(v)).len() <= 10,
        spec_take_varint(spec_varint_bytes(u64_of_i64(v)) + rest, 10) == Ok::<
            (nat, nat),
            SlpError,
        >((u64_of_i64(v), spec_varint_bytes(u64_of_i64(v)).len())),
        i64_of_bits(u64_of_i64(v)) == v as int,
{
    let u = u64_of_i64(v);
    assert(pow128(10) == 0x40_0000_0000_0000_0000) by {
        reveal_with_fuel(pow128, 11);
    };
    lemma_varint_bytes_len(u, 10);
    lemma_varint_bytes_minimal(u);
    lemma_varint_round_trip(u, rest, 10);
    crate::data_types::fixed::lemma_i64_bits_round_trip(v);
}

} // verus!
