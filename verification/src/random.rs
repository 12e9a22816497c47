//! The one place where the interpreter reaches outside itself: the random
//! byte consumed by the `Cxkk` instruction.

use vstd::prelude::*;

verus! {

/// Relies on `rand::random`, which draws from the thread-local generator.
/// Nothing is promised of the value: every caller must be correct for every
/// byte that may come back.
#[verifier::external_body]
pub(crate) fn random_byte() -> u8 {
    rand::random::<u8>()
}

} // verus!
