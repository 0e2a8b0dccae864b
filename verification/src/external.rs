//! The only places where this crate calls code it does not verify: one
//! wrapper per outside function, each with the contract that the function's
//! own source and documentation show.

use vstd::prelude::*;

verus! {

/// What the base64 encoder returns for a byte string: a pure function of the
/// bytes alone, defined by the base64 crate's standard alphabet with padding.
pub uninterp spec fn base64_of(bytes: Seq<u8>) -> Seq<char>;

/// Relies on base64's `Engine::encode` with the `BASE64_STANDARD` engine: the
/// result depends on the input bytes alone. The length bound keeps the
/// encoder's internal output-size computation from overflowing.
#[verifier::external_body]
pub fn base64_encode(bytes: &Vec<u8>) -> (r: String)
    requires
        bytes@.len() <= 0x1FFF_FFFF,
    ensures
        r@ == base64_of(bytes@),
{
    base64::Engine::encode(&base64::prelude::BASE64_STANDARD, bytes)
}

/// Relies on rand's `random_range` over `0..n`, which yields a value of the
/// (non-empty) range; each draw is independent and seeded from the thread
/// generator, so nothing more than the bound holds of it.
#[verifier::external_body]
pub fn random_index(n: usize) -> (r: usize)
    requires
        0 < n,
    ensures
        r < n,
{
    let mut rng = <rand::rngs::SmallRng as rand::SeedableRng>::from_os_rng();
    rand::Rng::random_range(&mut rng, 0..n)
}

/// Relies on `String::from_utf8`: it succeeds exactly when the bytes are
/// valid UTF-8, and the returned string is their decoding.
#[verifier::external_body]
pub fn string_from_utf8(bytes: Vec<u8>) -> (res: Option<String>)
    ensures
        match res {
            Some(s) => vstd::utf8::valid_utf8(bytes@) && s@ == vstd::utf8::decode_utf8(bytes@),
            None => !vstd::utf8::valid_utf8(bytes@),
        },
{
    String::from_utf8(bytes).ok()
}

} // verus!
