//! Random draws.
use vstd::prelude::*;
use rand::Rng;

verus! {

/// A random number of the half-open range from `low` to `high`.
///
/// Calls `rand::thread_rng` and `Rng::gen_range`. Believed, not proved: the
/// number drawn from a range that is not empty lies in that range. Nothing
/// is claimed of how the numbers are distributed.
#[verifier::external_body]
pub(crate) fn sample_range(low: i64, high: i64) -> (value: i64)
    requires
        low < high,
    ensures
        low <= value < high,
{
    rand::thread_rng().gen_range(low..high)
}

} // verus!
