//! Random numbers, drawn from the generator of the running thread.
use crate::fixed::{sat, Fixed, LIMIT, SCALE};
use rand::Rng;
use vstd::prelude::*;

verus! {

/// Calls `rand::thread_rng` and, on the generator it returns, `Rng::gen_range`
/// with the half-open range `lo..hi` of `i64`.
///
/// Trusted: the count returned lies in `lo..hi`. `gen_range` panics on an empty
/// range, which `requires` leaves out. Which count comes back is not stated: two
/// calls may differ.
#[verifier::external_body]
fn uniform_count(lo: i64, hi: i64) -> (r: i64)
    requires
        lo < hi,
    ensures
        lo <= r < hi,
{
    rand::thread_rng().gen_range(lo..hi)
}

/// A number drawn from `min` (included) to `max` (excluded).
pub fn random_between(min: Fixed, max: Fixed) -> (r: Fixed)
    requires
        min@ < max@,
    ensures
        min@ <= r@ < max@,
        r == Fixed::of(r@),
{
    Fixed::from_raw(uniform_count(min.count(), max.count()))
}

/// A number drawn from zero (included) to one (excluded).
pub fn random_fraction() -> (r: Fixed)
    ensures
        0 <= r@ < SCALE,
        r == Fixed::of(r@),
{
    Fixed::from_raw(uniform_count(0, SCALE))
}

} // verus!
