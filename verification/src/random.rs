//! Source of randomness for the Monte-Carlo kernel.

use vstd::prelude::*;

verus! {

/// Relies on `rand::random`: draws one uniformly distributed `u32` from
/// the thread-local generator.  Nothing can be promised of the value;
/// every caller must cope with any outcome.
#[verifier::external_body]
pub(crate) fn random_u32() -> u32 {
    rand::random::<u32>()
}

} // verus!
