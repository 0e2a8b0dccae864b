//! Building the JSON text this protocol serves, as UTF-8 bytes: string
//! literals with escaping, decimal integers, booleans. The shape of each JSON
//! object lives with the response type that serves it.

use vstd::prelude::*;
use vstd::string::StrSliceExecFns;
use vstd::utf8::encode_utf8;

verus! {

/// The ASCII code of one hexadecimal digit, lower case.
pub open spec fn spec_hex_digit(d: nat) -> u8
    recommends
        d < 16,
{
    if d < 10 {
        (0x30 + d) as u8
    } else {
        (0x57 + (d % 16)) as u8
    }
}

/// How one byte of UTF-8 text appears inside a JSON string literal: quote and
/// backslash escaped, control characters as their short escapes or `\u00..`,
/// everything else verbatim.
pub open spec fn spec_json_escaped_byte(b: u8) -> Seq<u8> {
    if b == 0x22 {
        seq![0x5Cu8, 0x22u8]
    } else if b == 0x5C {
        seq![0x5Cu8, 0x5Cu8]
    } else if b == 0x08 {
        seq![0x5Cu8, 0x62u8]
    } else if b == 0x09 {
        seq![0x5Cu8, 0x74u8]
    } else if b == 0x0A {
        seq![0x5Cu8, 0x6Eu8]
    } else if b == 0x0C {
        seq![0x5Cu8, 0x66u8]
    } else if b == 0x0D {
        seq![0x5Cu8, 0x72u8]
    } else if b < 0x20 {
        seq![
            0x5Cu8,
            0x75u8,
            0x30u8,
            0x30u8,
            spec_hex_digit((b / 16) as nat),
            spec_hex_digit((b % 16) as nat),
        ]
    } else {
        seq![b]
    }
}

/// A whole byte string escaped for a JSON string literal.
pub open spec fn spec_json_escaped(s: Seq<u8>) -> Seq<u8>
    decreases s.len(),
{
    if s.len() == 0 {
        Seq::empty()
    } else {
        spec_json_escaped_byte(s[0]) + spec_json_escaped(s.drop_first())
    }
}

proof fn lemma_json_escaped_push(s: Seq<u8>, b: u8)
    ensures
        spec_json_escaped(s.push(b)) == spec_json_escaped(s) + spec_json_escaped_byte(b),
    decreases s.len(),
{
    reveal_with_fuel(spec_json_escaped, 3);
    if s.len() == 0 {
        assert(s.push(b).drop_first() =~= Seq::<u8>::empty());
        assert(s.push(b)[0] == b);
        assert(spec_json_escaped(s.push(b)) =~= spec_json_escaped(s) + spec_json_escaped_byte(b));
    } else {
        assert(s.push(b).drop_first() =~= s.drop_first().push(b));
        lemma_json_escaped_push(s.drop_first(), b);
        assert(spec_json_escaped(s.push(b)) =~= spec_json_escaped(s) + spec_json_escaped_byte(b));
    }
}

/// A JSON string literal: quotes around the escaped bytes.
pub open spec fn spec_json_string(bytes: Seq<u8>) -> Seq<u8> {
    seq![0x22u8] + spec_json_escaped(bytes) + seq![0x22u8]
}

/// The decimal digits of an unsigned value, most significant first.
pub open spec fn spec_dec_digits(v: nat) -> Seq<u8>
    decreases v,
{
    if v < 10 {
        seq![(0x30 + v) as u8]
    } else {
        spec_dec_digits(v / 10) + seq![(0x30 + (v % 10)) as u8]
    }
}

/// The decimal form of a signed value.
pub open spec fn spec_dec_int(v: int) -> Seq<u8> {
    if v < 0 {
        seq![0x2Du8] + spec_dec_digits((-v) as nat)
    } else {
        spec_dec_digits(v as nat)
    }
}

/// The JSON form of a boolean.
pub open spec fn spec_json_bool(b: bool) -> Seq<u8> {
    if b {
        encode_utf8("true"@)
    } else {
        encode_utf8("false"@)
    }
}

/// Append a string literal's UTF-8 bytes verbatim.
pub fn push_lit(out: &mut Vec<u8>, s: &str)
    ensures
        final(out)@ == old(out)@ + encode_utf8(s@),
{
    let bytes: &[u8] = s.as_bytes();
    out.extend_from_slice(bytes);
}

fn hex_digit(d: u8) -> (r: u8)
    requires
        d < 16,
    ensures
        r == spec_hex_digit(d as nat),
{
    if d < 10 {
        0x30 + d
    } else {
        0x57 + d
    }
}

fn push_escaped_byte(out: &mut Vec<u8>, b: u8)
    ensures
        final(out)@ == old(out)@ + spec_json_escaped_byte(b),
{
    if b == 0x22 {
        out.push(0x5C);
        out.push(0x22);
    } else if b == 0x5C {
        out.push(0x5C);
        out.push(0x5C);
    } else if b == 0x08 {
        out.push(0x5C);
        out.push(0x62);
    } else if b == 0x09 {
        out.push(0x5C);
        out.push(0x74);
    } else if b == 0x0A {
        out.push(0x5C);
        out.push(0x6E);
    } else if b == 0x0C {
        out.push(0x5C);
        out.push(0x66);
    } else if b == 0x0D {
        out.push(0x5C);
        out.push(0x72);
    } else if b < 0x20 {
        out.push(0x5C);
        out.push(0x75);
        out.push(0x30);
        out.push(0x30);
        out.push(hex_digit(b / 16));
        out.push(hex_digit(b % 16));
    } else {
        out.push(b);
    }
    proof {
        assert(out@ =~= old(out)@ + spec_json_escaped_byte(b));
    }
}

/// Append a JSON string literal holding the given UTF-8 bytes.
pub fn push_json_string(out: &mut Vec<u8>, bytes: &Vec<u8>)
    ensures
        final(out)@ == old(out)@ + spec_json_string(bytes@),
{
    let ghost out0 = out@;
    out.push(0x22);
    let mut i: usize = 0;
    while i < bytes.len()
        invariant
            i <= bytes@.len(),
            out@ == out0 + seq![0x22u8] + spec_json_escaped(bytes@.take(i as int)),
        decreases bytes@.len() - i,
    {
        push_escaped_byte(out, bytes[i]);
        i = i + 1;
        proof {
            assert(bytes@.take(i as int) =~= bytes@.take(i - 1).push(bytes@[i - 1]));
            lemma_json_escaped_push(bytes@.take(i - 1), bytes@[i - 1]);
            assert(out@ =~= out0 + seq![0x22u8] + spec_json_escaped(bytes@.take(i as int)));
        }
    }
    out.push(0x22);
    proof {
        assert(bytes@.take(bytes@.len() as int) =~= bytes@);
        assert(out@ =~= out0 + spec_json_string(bytes@));
    }
}

/// Append a JSON string literal holding a string's UTF-8 form.
pub fn push_json_str(out: &mut Vec<u8>, s: &str)
    ensures
        final(out)@ == old(out)@ + spec_json_string(encode_utf8(s@)),
{
    let bytes = s.as_bytes_vec();
    push_json_string(out, &bytes);
}

fn push_dec_digits(out: &mut Vec<u8>, v: u64)
    ensures
        final(out)@ == old(out)@ + spec_dec_digits(v as nat),
    decreases v,
{
    if v < 10 {
        out.push(0x30 + (v as u8));
        proof {
            assert(out@ =~= old(out)@ + spec_dec_digits(v as nat));
        }
    } else {
        push_dec_digits(out, v / 10);
        out.push(0x30 + ((v % 10) as u8));
        proof {
            assert(out@ =~= old(out)@ + spec_dec_digits(v as nat));
        }
    }
}

/// Append the decimal form of a signed 64-bit value.
pub fn push_dec_i64(out: &mut Vec<u8>, v: i64)
    ensures
        final(out)@ == old(out)@ + spec_dec_int(v as int),
{
    if v < 0 {
        out.push(0x2D);
        let mag = (-(v + 1)) as u64 + 1;
        push_dec_digits(out, mag);
        proof {
            assert(out@ =~= old(out)@ + spec_dec_int(v as int));
        }
    } else {
        push_dec_digits(out, v as u64);
    }
}

/// Append the decimal form of a signed 32-bit value.
pub fn push_dec_i32(out: &mut Vec<u8>, v: i32)
    ensures
        final(out)@ == old(out)@ + spec_dec_int(v as int),
{
    push_dec_i64(out, v as i64);
}

/// Append the JSON form of a boolean.
pub fn push_json_bool(out: &mut Vec<u8>, b: bool)
    ensures
        final(out)@ == old(out)@ + spec_json_bool(b),
{
    if b {
        push_lit(out, "true");
    } else {
        push_lit(out, "false");
    }
}

} // verus!
