//! The random source behind the `Cxkk` instruction: the thread-local
//! generator of the `rand` crate. Nothing here is proved; the contracts say
//! what is taken on trust.

use vstd::prelude::*;
use rand::Rng;

verus! {

/// `rand::rngs::ThreadRng`, a handle to the calling thread's generator.
/// Its inside is never looked at.
#[verifier::external_type_specification]
#[verifier::external_body]
pub struct ExThreadRng(rand::rngs::ThreadRng);

/// Calls `rand::thread_rng`, which hands out a handle to the generator of
/// the calling thread, seeding the generator from the system on the
/// thread's first call. Nothing is claimed of the handle.
#[verifier::external_body]
pub(crate) fn thread_rng() -> (rng: rand::rngs::ThreadRng) {
    rand::thread_rng()
}

/// Calls `rand::Rng::gen::<u8>` on the handle: the next random byte.
/// Nothing is claimed of the byte, so callers are proved for every value.
#[verifier::external_body]
pub(crate) fn random_byte(rng: &mut rand::rngs::ThreadRng) -> (byte: u8) {
    rng.gen::<u8>()
}

} // verus!
