//! The simulation's only randomness source. Random values enter the
//! verified code solely through the wrapper below, which promises a
//! range and nothing else; every caller states what holds of every
//! outcome in that range.

use vstd::prelude::*;
use rand::Rng;

verus! {

/// Relies on `rand::thread_rng` and `rand::Rng::gen_range` over the
/// inclusive range `lo..=hi`: `gen_range` panics on an empty range
/// (excluded by `requires`) and otherwise samples a value within the
/// given range. Which value comes back is not assumed.
#[verifier::external_body]
pub(crate) fn random_in_range(lo: i64, hi: i64) -> (r: i64)
    requires
        lo <= hi,
    ensures
        lo <= r <= hi,
{
    rand::thread_rng().gen_range(lo..=hi)
}

} // verus!
