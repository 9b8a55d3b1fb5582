//! The resolver's only source of entropy, behind a single trusted wrapper.

use vstd::prelude::*;
use rand::Rng;

verus! {

/// Relies on `rand::thread_rng` and `rand::Rng::gen_range`: on a non-empty
/// range `0..bound` the call draws a value uniformly from that range and
/// returns it; it panics only on an empty range, which the precondition
/// rules out.
#[verifier::external_body]
pub(crate) fn random_below(bound: u8) -> (r: u8)
    requires
        1 <= bound,
    ensures
        r < bound,
{
    rand::thread_rng().gen_range(0..bound)
}

} // verus!
