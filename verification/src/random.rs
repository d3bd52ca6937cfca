//! Dice: uniform draws from `rand`'s thread-local generator.
use vstd::prelude::*;
use rand::Rng;
use rand::rngs::ThreadRng;

verus! {

/// The thread-local generator of the `rand` crate, opaque here.
#[verifier::external_type_specification]
#[verifier::external_body]
pub struct ExThreadRng(rand::rngs::ThreadRng);

/// Trusted: `rand::thread_rng`, the lazily seeded generator of the current
/// thread. Nothing is stated of its state.
#[verifier::external_body]
pub(crate) fn thread_rng() -> ThreadRng {
    rand::thread_rng()
}

/// Trusted: `Rng::gen_range(low, high)` of rand 0.7 on `u64`. Its
/// documentation promises a value in `[low, high)` and a panic when
/// `low >= high`, which `requires` rules out. Which value comes out is chance,
/// and nothing more is stated of it.
#[verifier::external_body]
pub(crate) fn gen_range(rng: &mut ThreadRng, low: u64, high: u64) -> (r: u64)
    requires
        low < high,
    ensures
        low <= r < high,
{
    rng.gen_range(low, high)
}

/// A uniform draw from `[low, high)`.
pub(crate) fn roll(rng: &mut ThreadRng, low: usize, high: usize) -> (r: usize)
    requires
        low < high,
    ensures
        low <= r < high,
{
    gen_range(rng, low as u64, high as u64) as usize
}

/// A uniform byte from `[low, high)`.
pub(crate) fn roll_u8(rng: &mut ThreadRng, low: u8, high: u8) -> (r: u8)
    requires
        low < high,
    ensures
        low <= r < high,
{
    gen_range(rng, low as u64, high as u64) as u8
}

/// A uniform `i32` from `[low, high)`: `low` plus a uniform offset below
/// `high - low`.
pub(crate) fn roll_i32(rng: &mut ThreadRng, low: i32, high: i32) -> (r: i32)
    requires
        low < high,
    ensures
        low <= r < high,
{
    let span: u64 = (high as i64 - low as i64) as u64;
    let off: u64 = gen_range(rng, 0, span);
    (low as i64 + off as i64) as i32
}

} // verus!
