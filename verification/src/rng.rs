use vstd::prelude::*;

use rand::Rng;

verus! {

/// rand's thread-local random number generator.  The `CXNN` instruction
/// draws its random byte from a value of this type; the type is opaque
/// here and nothing is assumed about the bytes it yields beyond their
/// range.
#[verifier::external_type_specification]
#[verifier::external_body]
pub struct ExThreadRng(rand::rngs::ThreadRng);

/// Relies on rand::thread_rng: retrieves a handle to the lazily
/// initialized thread-local generator.  Nothing is promised of it.
#[verifier::external_body]
pub fn new_thread_rng() -> rand::rngs::ThreadRng {
    rand::thread_rng()
}

/// Relies on Rng::gen_range over the half-open range `0..u8::MAX`: the
/// sample is uniformly distributed in `[0, 255)`, so it is strictly below
/// 255; nothing else is promised of it.
#[verifier::external_body]
pub fn random_byte_below_max(rng: &mut rand::rngs::ThreadRng) -> (r: u8)
    ensures
        r < 255,
{
    rng.gen_range(0..u8::MAX)
}

} // verus!
