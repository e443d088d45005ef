//! Random draws for test fixtures, from rand's thread-local generator.
use rand::Rng;
use vstd::prelude::*;

verus! {

/// Relies on rand's `thread_rng().gen_range(low..high)`: a value in
/// `[low, high)`; it panics on an empty range.
#[verifier::external_body]
pub(crate) fn random_i64(low: i64, high: i64) -> (r: i64)
    requires
        low < high,
    ensures
        low <= r < high,
{
    rand::thread_rng().gen_range(low..high)
}

/// Relies on rand's `thread_rng().gen_range(low..high)`: a value in
/// `[low, high)`; it panics on an empty range.
#[verifier::external_body]
pub(crate) fn random_u64(low: u64, high: u64) -> (r: u64)
    requires
        low < high,
    ensures
        low <= r < high,
{
    rand::thread_rng().gen_range(low..high)
}

} // verus!
