//! The interpreter's source of randomness.

use vstd::prelude::*;
use rand::Rng;

verus! {

/// Relies on rand::Rng::gen through rand::thread_rng: one byte of the
/// thread-local generator. Nothing is promised of the value.
#[verifier::external_body]
pub(crate) fn random_byte() -> u8 {
    let mut rng = rand::thread_rng();
    rng.gen()
}

} // verus!
