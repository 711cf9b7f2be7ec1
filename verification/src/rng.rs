//! The random sources behind floor generation and loot rolls.

use vstd::prelude::*;

use rand::rngs::StdRng;
use rand::{Rng, SeedableRng};

verus! {

/// `rand::rngs::StdRng`, carried through the generator without looking inside.
#[verifier::external_type_specification]
#[verifier::external_body]
pub struct ExStdRng(StdRng);

/// `SeedableRng::seed_from_u64` for `StdRng`: a generator whose output
/// stream is fixed by the seed. Nothing is claimed of the generator's state.
#[verifier::external_body]
pub(crate) fn seeded_rng(seed: u64) -> StdRng {
    StdRng::seed_from_u64(seed)
}

/// `Rng::gen_range` over `low..=high` for `u32`: a value in that range.
/// rand panics on an empty range, which `requires` leaves out. For integers,
/// rand samples `low..high` exactly as `low..=high - 1`, so this one item
/// serves both range forms.
#[verifier::external_body]
pub(crate) fn gen_range_inclusive(rng: &mut StdRng, low: u32, high: u32) -> (value: u32)
    requires
        low <= high,
    ensures
        low <= value <= high,
{
    rng.gen_range(low..=high)
}

/// `Rng::gen_range` over `0..len` for `usize`: an index below `len`. rand
/// panics on an empty range, which `requires` leaves out.
#[verifier::external_body]
pub(crate) fn gen_index(rng: &mut StdRng, len: usize) -> (index: usize)
    requires
        0 < len,
    ensures
        index < len,
{
    rng.gen_range(0..len)
}

/// `rand::thread_rng` then `Rng::gen_range` over `0..len` for `usize`: an
/// index below `len`, from the thread's own generator. rand panics on an
/// empty range, which `requires` leaves out.
#[verifier::external_body]
pub(crate) fn thread_index(len: usize) -> (index: usize)
    requires
        0 < len,
    ensures
        index < len,
{
    rand::thread_rng().gen_range(0..len)
}

/// `Rng::gen_ratio`: `true` with probability `numerator / denominator`;
/// always `false` for a zero numerator and always `true` when numerator and
/// denominator are equal. rand panics for a zero denominator or a numerator
/// above it, which `requires` leaves out. (rand builds the same Bernoulli
/// threshold here as `gen_bool` does for the probability written as a decimal.)
#[verifier::external_body]
pub(crate) fn gen_ratio(rng: &mut StdRng, numerator: u32, denominator: u32) -> (hit: bool)
    requires
        0 < denominator,
        numerator <= denominator,
    ensures
        numerator == 0 ==> !hit,
        numerator == denominator ==> hit,
{
    rng.gen_ratio(numerator, denominator)
}

/// `rand::random`: a seed drawn from the thread's generator. Nothing is
/// claimed of the value.
#[verifier::external_body]
pub fn random_seed() -> u64 {
    rand::random()
}

} // verus!
