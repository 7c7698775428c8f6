//! The random draws that the sequence generators and the drill make, all
//! taken from `rand`'s small, fast generator.

use vstd::prelude::*;
use rand::rngs::SmallRng;
use rand::{Rng, SeedableRng};

verus! {

#[verifier::external_type_specification]
#[verifier::external_body]
pub struct ExSmallRng(SmallRng);

/// `SeedableRng::try_from_os_rng`: a generator seeded from the operating
/// system's entropy source, or `None` when the operating system cannot
/// provide entropy (the `getrandom` error is dropped). Which of the two
/// comes, and the generator's state, are not claimed.
#[verifier::external_body]
pub(crate) fn try_seeded_from_os() -> Option<SmallRng> {
    SmallRng::try_from_os_rng().ok()
}

/// `Rng::random_range` on the inclusive range `low..=high` of `i64`:
/// rand's source returns a value with `low <= r <= high`, and panics on an
/// empty range, which `requires` leaves out. Which value comes out depends
/// on the generator's state and is not claimed.
#[verifier::external_body]
pub(crate) fn draw_i64(rng: &mut SmallRng, low: i64, high: i64) -> (r: i64)
    requires
        low <= high,
    ensures
        low <= r <= high,
{
    rng.random_range(low..=high)
}

/// `Rng::random_range` on the half-open range `0..len` of `usize`: a value
/// below `len`; rand panics when `len` is 0, which `requires` leaves out.
#[verifier::external_body]
pub(crate) fn draw_index(rng: &mut SmallRng, len: usize) -> (r: usize)
    requires
        len > 0,
    ensures
        r < len,
{
    rng.random_range(0..len)
}

/// `Rng::random_ratio(1, 2)`: a fair coin. rand builds the same Bernoulli
/// threshold (2^63) here as for a probability of one half. Either outcome is
/// possible, so nothing is claimed of the result.
#[verifier::external_body]
pub(crate) fn draw_coin(rng: &mut SmallRng) -> bool {
    rng.random_ratio(1, 2)
}

} // verus!
