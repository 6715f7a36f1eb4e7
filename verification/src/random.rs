//! The operating system's randomness, for hosts that do not bring their own.

use rand::Rng;
use vstd::prelude::*;

verus! {

/// One byte from `rand`'s thread-local generator: `rand::rng()` followed by
/// `Rng::random::<u8>()`.
///
/// Nothing is claimed of the byte: every value may come back, and two calls
/// may differ. The generator is seeded from the operating system on first use
/// in a thread, and `rand` aborts that first call if the system denies it
/// entropy.
#[verifier::external_body]
pub(crate) fn random_byte() -> (byte: u8) {
    rand::rng().random::<u8>()
}

} // verus!
