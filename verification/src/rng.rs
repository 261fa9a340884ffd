//! The one randomness source of the game: uniform integer draws for the
//! invaders' fire decision.

use vstd::prelude::*;

verus! {

/// Relies on `rand::random_range` over the integer range `0..bound`: it
/// returns a value of that range, drawn from the thread-local generator,
/// and panics only on an empty range. Nothing can be promised about which
/// value comes back.
#[verifier::external_body]
pub(crate) fn random_below(bound: u32) -> (r: u32)
    requires
        bound > 0,
    ensures
        r < bound,
{
    rand::random_range(0..bound)
}

} // verus!
