//! The one source of chance of the library.

use vstd::prelude::*;

verus! {

/// `rand::random_range` on an inclusive range of `u64`: a number from `low`
/// to `high`, drawn by the generator of the thread. Nothing more holds of
/// it; two calls may differ. The range is not empty, as the call asks.
#[verifier::external_body]
pub(crate) fn random_in(low: u64, high: u64) -> (r: u64)
    requires
        low <= high,
    ensures
        low <= r <= high,
{
    rand::random_range(low..=high)
}

} // verus!
