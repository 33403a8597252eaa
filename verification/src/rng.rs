//! Random draws used by the generation side of the harness.  Nothing is
//! assumed about the distribution of the results beyond the bounds that the
//! underlying functions document, so every caller is verified for every
//! outcome.

use vstd::prelude::*;

verus! {

/// Relies on rand::random::<u32>: returns some 32-bit value; nothing is
/// promised of it.
#[verifier::external_body]
pub fn random_u32() -> u32 {
    rand::random::<u32>()
}

/// Relies on rand::random::<bool>: returns some boolean; nothing is promised
/// of it.
#[verifier::external_body]
pub fn random_bool() -> bool {
    rand::random::<bool>()
}

/// Relies on Rng::gen_range over `0..n`: the result is uniformly distributed
/// in `[0, n)`, and the call panics on an empty range, so `n` must be
/// positive.
#[verifier::external_body]
pub fn random_index(n: usize) -> (r: usize)
    requires
        n >= 1,
    ensures
        r < n,
{
    rand::Rng::gen_range(&mut rand::thread_rng(), 0..n)
}

} // verus!
