//! Randomness, taken on trust from the `rand` crate: the level generator
//! and the confused-monster stumble draw from these.  Nothing is assumed
//! of a draw beyond its documented range, so everything proved downstream
//! holds for every outcome.
use vstd::prelude::*;

verus! {

/// Relies on rand::random_range: a draw from a half-open integer range,
/// which panics only when the range is empty.
#[verifier::external_body]
pub(crate) fn rand_range(low: i32, high: i32) -> (r: i32)
    requires
        low < high,
    ensures
        low <= r < high,
{
    rand::random_range(low..high)
}

/// Relies on rand::random: an unweighted coin flip.
#[verifier::external_body]
pub(crate) fn rand_coin() -> (r: bool) {
    rand::random::<bool>()
}

} // verus!
