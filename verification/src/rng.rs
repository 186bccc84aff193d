//! Random draws. The generator is `rand`'s `SmallRng`; the library only
//! relies on the range each draw is documented to fall in.
use rand::rngs::SmallRng;
use rand::seq::SliceRandom;
use rand::Rng;
use rand::RngCore;
use rand::SeedableRng;
use vstd::prelude::*;

verus! {

/// The small, fast generator of `rand`, carried opaquely.
#[verifier::external_type_specification]
#[verifier::external_body]
pub struct ExSmallRng(SmallRng);

/// `SmallRng::seed_from_u64`: a generator seeded from a 64-bit value.
/// Nothing is claimed of the generator's internal state.
#[verifier::external_body]
pub(crate) fn small_rng_from_seed(seed: u64) -> SmallRng {
    SmallRng::seed_from_u64(seed)
}

/// `RngCore::next_u32` on a `SmallRng`: any 32-bit value may come back.
#[verifier::external_body]
pub(crate) fn small_rng_next_u32(rng: &mut SmallRng) -> u32 {
    rng.next_u32()
}

/// `RngCore::next_u64` on a `SmallRng`: any 64-bit value may come back.
#[verifier::external_body]
pub(crate) fn small_rng_next_u64(rng: &mut SmallRng) -> u64 {
    rng.next_u64()
}

/// `Rng::gen_range(low..high)` for `u32`: the result lies in `[low, high)`.
/// The call asserts that the range is not empty, so `low < high` is required.
#[verifier::external_body]
pub(crate) fn gen_range_u32(rng: &mut SmallRng, low: u32, high: u32) -> (r: u32)
    requires
        low < high,
    ensures
        low <= r < high,
{
    rng.gen_range(low..high)
}

/// `Rng::gen_range(low..=high)` for `u16`: the result lies in `[low, high]`.
#[verifier::external_body]
pub(crate) fn gen_range_inclusive_u16(rng: &mut SmallRng, low: u16, high: u16) -> (r: u16)
    requires
        low <= high,
    ensures
        low <= r <= high,
{
    rng.gen_range(low..=high)
}

/// `Rng::gen_range(low..=high)` for `u8`: the result lies in `[low, high]`.
#[verifier::external_body]
pub(crate) fn gen_range_inclusive_u8(rng: &mut SmallRng, low: u8, high: u8) -> (r: u8)
    requires
        low <= high,
    ensures
        low <= r <= high,
{
    rng.gen_range(low..=high)
}

/// `Rng::gen_range(low..high)` for `u8`: the result lies in `[low, high)`.
#[verifier::external_body]
pub(crate) fn gen_range_u8(rng: &mut SmallRng, low: u8, high: u8) -> (r: u8)
    requires
        low < high,
    ensures
        low <= r < high,
{
    rng.gen_range(low..high)
}

/// `Rng::gen_range(low..high)` for `usize`: the result lies in `[low, high)`.
#[verifier::external_body]
pub(crate) fn gen_range_usize(rng: &mut SmallRng, low: usize, high: usize) -> (r: usize)
    requires
        low < high,
    ensures
        low <= r < high,
{
    rng.gen_range(low..high)
}

/// `SliceRandom::shuffle` on a vector of positions: the entries are swapped
/// into a random order, so the same entries remain, each as many times.
#[verifier::external_body]
pub(crate) fn shuffle_positions(rng: &mut SmallRng, v: &mut Vec<usize>)
    ensures
        final(v)@.len() == old(v)@.len(),
        final(v)@.to_multiset() == old(v)@.to_multiset(),
{
    v.shuffle(rng);
}

} // verus!
