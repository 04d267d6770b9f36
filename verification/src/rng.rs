//! The injected randomness source.
//!
//! Randomness is threaded explicitly through calls (bag draws, the random
//! player, search tie-breaks), so play is replayable from a fixed seed.

use vstd::prelude::*;

verus! {

#[verifier::external_type_specification]
#[verifier::external_body]
pub struct ExStdRng(rand::rngs::StdRng);

/// Relies on rand::Rng::gen_range over `0..n`: the result is a number below
/// `n`. Nothing else can be promised of a random draw.
#[verifier::external_body]
pub(crate) fn random_below(rng: &mut rand::rngs::StdRng, n: usize) -> (r: usize)
    requires
        n > 0,
    ensures
        r < n,
{
    rand::Rng::gen_range(rng, 0..n)
}

} // verus!
