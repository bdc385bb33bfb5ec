//! The random source of the `CXNN` instruction.

use vstd::prelude::*;

verus! {

/// Calls `rand::random::<u8>()`, which draws a byte from the thread-local
/// generator of the `rand` crate. Any byte may come back, and two calls may
/// differ, so the contract promises nothing of the result. (`rand` panics
/// inside this call only when the operating system's entropy source cannot
/// seed the generator; no argument governs that.)
#[verifier::external_body]
pub(crate) fn random_byte() -> u8 {
    rand::random::<u8>()
}

} // verus!
