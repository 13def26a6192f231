//! The pseudo-random generator of the tests: `rand`'s `SmallRng`, seeded with a number.
//!
//! `SmallRng` is not portable: its stream changes with the platform's pointer width and with
//! the version of `rand`. So nothing is stated of the values it gives beyond their range; the
//! two ends of a test that compare data regenerate it with the same generator and seed.
use rand::RngExt;
use vstd::prelude::*;

verus! {

#[verifier::external_type_specification]
#[verifier::external_body]
pub struct ExSmallRng(rand::rngs::SmallRng);

/// `rand::rngs::SmallRng::seed_from_u64`: a generator seeded with `seed`.
#[verifier::external_body]
pub(crate) fn seeded_rng(seed: u64) -> (rng: rand::rngs::SmallRng) {
    <rand::rngs::SmallRng as rand::SeedableRng>::seed_from_u64(seed)
}

/// `RngExt::random_range(low..=high)` on `u8`: a value from `low` to `high`. The range must
/// not be empty, where `rand` panics.
#[verifier::external_body]
pub(crate) fn random_u8_in(rng: &mut rand::rngs::SmallRng, low: u8, high: u8) -> (r: u8)
    requires
        low <= high,
    ensures
        low <= r <= high,
{
    rng.random_range(low..=high)
}

/// `RngExt::random_range(low..=high)` on `u16`: a value from `low` to `high`. The range must
/// not be empty, where `rand` panics.
#[verifier::external_body]
pub(crate) fn random_u16_in(rng: &mut rand::rngs::SmallRng, low: u16, high: u16) -> (r: u16)
    requires
        low <= high,
    ensures
        low <= r <= high,
{
    rng.random_range(low..=high)
}

/// `RngExt::random::<u8>()`: any byte.
#[verifier::external_body]
pub(crate) fn random_byte(rng: &mut rand::rngs::SmallRng) -> u8 {
    rng.random()
}

} // verus!
