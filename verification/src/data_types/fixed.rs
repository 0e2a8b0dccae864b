use vstd::arithmetic::div_mod::lemma_small_mod;
use vstd::prelude::*;

use crate::data_types::reader::Reader;
use crate::error::SlpError;

verus! {

/// 256 to the power `k`: the number of byte strings of width `k`.
pub open spec fn pow256(k: nat) -> nat
    decreases k,
{
    if k == 0 {
        1
    } else {
        0x100 * pow256((k - 1) as nat)
    }
}

pub proof fn lemma_pow256_increases(a: nat, b: nat)
    requires
        a <= b,
    ensures
        pow256(a) <= pow256(b),
    decreases b,
{
    if a < b {
        lemma_pow256_increases(a, (b - 1) as nat);
    }
}

/// The big-endian encoding of the low `width` bytes of `v`.
pub open spec fn spec_be_bytes(v: nat, width: nat) -> Seq<u8>
    decreases width,
{
    if width == 0 {
        Seq::empty()
    } else {
        spec_be_bytes(v / 0x100, (width - 1) as nat) + seq![(v % 0x100) as u8]
    }
}

/// The value of a big-endian byte string.
pub open spec fn spec_be_val(s: Seq<u8>) -> nat
    decreases s.len(),
{
    if s.len() == 0 {
        0
    } else {
        (spec_be_val(s.drop_last()) * 0x100 + s.last()) as nat
    }
}

pub proof fn lemma_be_bytes_len(v: nat, width: nat)
    ensures
        spec_be_bytes(v, width).len() == width,
    decreases width,
{
    if width > 0 {
        lemma_be_bytes_len(v / 0x100, (width - 1) as nat);
    }
}

pub proof fn lemma_be_val_bound(s: Seq<u8>)
    ensures
        spec_be_val(s) < pow256(s.len()),
    decreases s.len(),
{
    if s.len() > 0 {
        lemma_be_val_bound(s.drop_last());
    }
}

/// Writing `width` bytes of a value and reading them back gives the value,
/// provided it fits in that width.
pub proof fn lemma_be_round_trip(v: nat, width: nat)
    requires
        v < pow256(width),
    ensures
        spec_be_val(spec_be_bytes(v, width)) == v,
    decreases width,
{
    if width == 0 {
    } else {
        let rest = spec_be_bytes(v / 0x100, (width - 1) as nat);
        lemma_be_bytes_len(v / 0x100, (width - 1) as nat);
        assert(spec_be_bytes(v, width).drop_last() =~= rest);
        vstd::arithmetic::div_mod::lemma_fundamental_div_mod(v as int, 0x100);
        assert(pow256(width) == 0x100 * pow256((width - 1) as nat));
        lemma_be_round_trip(v / 0x100, (width - 1) as nat);
    }
}

/// The signed 32-bit value whose two's-complement bit pattern is `v` mod 2^32.
pub open spec fn i32_of_bits(v: nat) -> int {
    let m = v % 0x1_0000_0000;
    if m < 0x8000_0000 {
        m as int
    } else {
        m - 0x1_0000_0000
    }
}

/// The two's-complement bit pattern of a signed 32-bit value.
pub open spec fn u32_of_i32(v: i32) -> nat {
    if v >= 0 {
        v as nat
    } else {
        (v + 0x1_0000_0000) as nat
    }
}

/// The signed 64-bit value whose two's-complement bit pattern is `v` mod 2^64.
pub open spec fn i64_of_bits(v: nat) -> int {
    let m = v % 0x1_0000_0000_0000_0000;
    if m < 0x8000_0000_0000_0000 {
        m as int
    } else {
        m - 0x1_0000_0000_0000_0000
    }
}

/// The two's-complement bit pattern of a signed 64-bit value.
pub open spec fn u64_of_i64(v: i64) -> nat {
    if v >= 0 {
        v as nat
    } else {
        (v + 0x1_0000_0000_0000_0000) as nat
    }
}

pub proof fn lemma_i32_bits_round_trip(v: i32)
    ensures
        i32_of_bits(u32_of_i32(v)) == v as int,
{
    lemma_small_mod(u32_of_i32(v), 0x1_0000_0000);
}

/// The inverse direction: a bit pattern that fits 64 bits is recovered from
/// the signed value it denotes.
pub proof fn lemma_i64_bits_inverse(v: i64, u: nat)
    requires
        u < 0x1_0000_0000_0000_0000,
        v as int == i64_of_bits(u),
    ensures
        u64_of_i64(v) == u,
{
    lemma_small_mod(u, 0x1_0000_0000_0000_0000);
}

pub proof fn lemma_i64_bits_round_trip(v: i64)
    ensures
        i64_of_bits(u64_of_i64(v)) == v as int,
{
    lemma_small_mod(u64_of_i64(v), 0x1_0000_0000_0000_0000);
}

pub fn i32_from_bits(u: u32) -> (r: i32)
    ensures
        r as int == i32_of_bits(u as nat),
{
    proof {
        lemma_small_mod(u as nat, 0x1_0000_0000);
    }
    if u < 0x8000_0000 {
        u as i32
    } else {
        let x = (0xFFFF_FFFFu32 - u) as i32;
        -x - 1
    }
}

pub fn u32_from_i32(v: i32) -> (u: u32)
    ensures
        u as nat == u32_of_i32(v),
{
    if v >= 0 {
        v as u32
    } else {
        let x = (-(v + 1)) as u32;
        0xFFFF_FFFFu32 - x
    }
}

pub fn i64_from_bits(u: u64) -> (r: i64)
    ensures
        r as int == i64_of_bits(u as nat),
{
    proof {
        lemma_small_mod(u as nat, 0x1_0000_0000_0000_0000);
    }
    if u < 0x8000_0000_0000_0000 {
        u as i64
    } else {
        let x = (0xFFFF_FFFF_FFFF_FFFFu64 - u) as i64;
        -x - 1
    }
}

pub fn u64_from_i64(v: i64) -> (u: u64)
    ensures
        u as nat == u64_of_i64(v),
{
    if v >= 0 {
        v as u64
    } else {
        let x = (-(v + 1)) as u64;
        0xFFFF_FFFF_FFFF_FFFFu64 - x
    }
}

/// Read `width` big-endian bytes as an unsigned value.
pub fn read_be(r: &mut Reader, width: usize) -> (res: Result<u128, SlpError>)
    requires
        old(r).wf(),
        width <= 16,
    ensures
        final(r).wf(),
        final(r).is_framed() == old(r).is_framed(),
        old(r).remaining().len() >= width ==> {
            &&& res matches Ok(v) && v as nat == spec_be_val(
                old(r).remaining().take(width as int),
            )
            &&& final(r).remaining() == old(r).remaining().skip(width as int)
        },
        old(r).remaining().len() < width ==> {
            &&& res == Err::<u128, SlpError>(old(r).exhausted_err())
            &&& final(r).remaining() == old(r).remaining()
        },
{
    let bytes = match r.read_bytes(width) {
        Ok(b) => b,
        Err(e) => {
            return Err(e);
        },
    };
    let mut acc: u128 = 0;
    let mut i: usize = 0;
    while i < width
        invariant
            i <= width <= 16,
            bytes@.len() == width,
            acc as nat == spec_be_val(bytes@.take(i as int)),
        decreases width - i,
    {
        proof {
            lemma_be_val_bound(bytes@.take(i as int));
            lemma_pow256_increases(i as nat, 15);
            assert(pow256(15) == 0x100_0000_0000_0000_0000_0000_0000_0000) by {
                reveal_with_fuel(pow256, 16);
            };
        }
        let b = bytes[i];
        acc = acc * 0x100 + (b as u128);
        i = i + 1;
        proof {
            assert(bytes@.take(i as int).drop_last() =~= bytes@.take(i - 1));
            assert(bytes@.take(i as int).last() == bytes@[i - 1]);
        }
    }
    proof {
        assert(bytes@.take(width as int) =~= bytes@);
    }
    Ok(acc)
}

/// Append the big-endian encoding of the low `width` bytes of `v`.
pub fn push_be(out: &mut Vec<u8>, v: u128, width: usize)
    ensures
        final(out)@ == old(out)@ + spec_be_bytes(v as nat, width as nat),
    decreases width,
{
    if width == 0 {
        proof {
            assert(out@ =~= old(out)@ + spec_be_bytes(v as nat, 0));
        }
        return ;
    }
    push_be(out, v / 0x100, width - 1);
    out.push((v % 0x100) as u8);
    proof {
        assert(out@ =~= old(out)@ + spec_be_bytes(v as nat, width as nat));
    }
}

/// Read a big-endian 16-bit unsigned integer.
pub fn read_u16(r: &mut Reader) -> (res: Result<u16, SlpError>)
    requires
        old(r).wf(),
    ensures
        final(r).wf(),
        final(r).is_framed() == old(r).is_framed(),
        old(r).remaining().len() >= 2 ==> {
            &&& res matches Ok(v) && v as nat == spec_be_val(old(r).remaining().take(2))
            &&& final(r).remaining() == old(r).remaining().skip(2)
        },
        old(r).remaining().len() < 2 ==> {
            &&& res == Err::<u16, SlpError>(old(r).exhausted_err())
            &&& final(r).remaining() == old(r).remaining()
        },
{
    match read_be(r, 2) {
        Ok(v) => {
            proof {
                lemma_be_val_bound(old(r).remaining().take(2));
                assert(pow256(2) == 0x1_0000) by {
                    reveal_with_fuel(pow256, 3);
                };
            }
            Ok(v as u16)
        },
        Err(e) => Err(e),
    }
}

/// Read a big-endian 64-bit signed integer.
pub fn read_i64(r: &mut Reader) -> (res: Result<i64, SlpError>)
    requires
        old(r).wf(),
    ensures
        final(r).wf(),
        final(r).is_framed() == old(r).is_framed(),
        old(r).remaining().len() >= 8 ==> {
            &&& res matches Ok(v) && v as int == i64_of_bits(
                spec_be_val(old(r).remaining().take(8)),
            )
            &&& final(r).remaining() == old(r).remaining().skip(8)
        },
        old(r).remaining().len() < 8 ==> {
            &&& res == Err::<i64, SlpError>(old(r).exhausted_err())
            &&& final(r).remaining() == old(r).remaining()
        },
{
    match read_be(r, 8) {
        Ok(v) => {
            proof {
                lemma_be_val_bound(old(r).remaining().take(8));
                assert(pow256(8) == 0x1_0000_0000_0000_0000) by {
                    reveal_with_fuel(pow256, 9);
                };
                lemma_small_mod(v as nat, 0x1_0000_0000_0000_0000);
            }
            Ok(i64_from_bits(v as u64))
        },
        Err(e) => Err(e),
    }
}

/// Read a big-endian 128-bit unsigned integer.
pub fn read_u128(r: &mut Reader) -> (res: Result<u128, SlpError>)
    requires
        old(r).wf(),
    ensures
        final(r).wf(),
        final(r).is_framed() == old(r).is_framed(),
        old(r).remaining().len() >= 16 ==> {
            &&& res matches Ok(v) && v as nat == spec_be_val(old(r).remaining().take(16))
            &&& final(r).remaining() == old(r).remaining().skip(16)
        },
        old(r).remaining().len() < 16 ==> {
            &&& res == Err::<u128, SlpError>(old(r).exhausted_err())
            &&& final(r).remaining() == old(r).remaining()
        },
{
    read_be(r, 16)
}

/// Append a big-endian 64-bit signed integer.
pub fn push_i64_be(out: &mut Vec<u8>, v: i64)
    ensures
        final(out)@ == old(out)@ + spec_be_bytes(u64_of_i64(v), 8),
{
    let u = u64_from_i64(v);
    push_be(out, u as u128, 8);
}

} // verus!
