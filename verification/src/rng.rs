//! The engine's only source of chance: a uniformly random number below a
//! caller-given bound.

use vstd::prelude::*;
use rand::Rng;

verus! {

/// Relies on rand::Rng::gen_range on rand::rngs::ThreadRng: for the
/// non-empty range 0..n it returns a value of the range, sampled
/// uniformly. Nothing more is assumed of the sample.
#[verifier::external_body]
pub(crate) fn random_below(n: usize) -> (r: usize)
    requires
        n > 0,
    ensures
        r < n,
{
    rand::thread_rng().gen_range(0..n)
}

} // verus!
