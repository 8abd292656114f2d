//! Random-number support: the thread-local generator of the `rand` crate,
//! behind trusted declarations.
//!
//! Spawn placement and the per-agent lag offset are the only random choices
//! the simulation makes; everything downstream is verified for every value
//! the generator may hand back.
use vstd::prelude::*;
use rand::Rng;

verus! {

#[verifier::external_type_specification]
#[verifier::external_body]
pub struct ExThreadRng(rand::rngs::ThreadRng);

/// Relies on rand::thread_rng: a handle to the thread-local generator.
/// Nothing is assumed of the values it will produce.
#[verifier::external_body]
pub(crate) fn new_rng() -> rand::rngs::ThreadRng {
    rand::thread_rng()
}

/// Relies on rand::Rng::gen_range over the half-open range 0..n: the draw
/// lies below n; the call panics only on an empty range, which the
/// precondition excludes.
#[verifier::external_body]
pub(crate) fn random_below(rng: &mut rand::rngs::ThreadRng, n: u64) -> (r: u64)
    requires
        n >= 1,
    ensures
        r < n,
{
    rng.gen_range(0..n)
}

} // verus!
