//! The machine's randomness source for the "random byte under a mask"
//! instruction.

use vstd::prelude::*;

verus! {

/// Relies on rand's thread-local generator: `gen_range(0..256)` returns a
/// uniformly distributed value below 256. Nothing is promised of the value;
/// callers state what holds of every outcome.
#[verifier::external_body]
pub(crate) fn random_byte() -> (r: u8) {
    rand::Rng::gen_range(&mut rand::thread_rng(), 0..256u16) as u8
}

} // verus!
