//! Random draws and new identifiers, taken from the `rand` and `uuid` crates.
//!
//! Every item here is trusted: its contract says only what holds of every
//! outcome of the outside call.

use rand::rngs::StdRng;
use rand::Rng;
use vstd::prelude::*;

verus! {

/// The seeded/entropy random generator of `rand`, carried through the library opaquely.
#[verifier::external_type_specification]
#[verifier::external_body]
pub struct ExStdRng(StdRng);

/// `Rng::gen_range` over the half-open `u32` range `low..high`.
/// Claims that the value drawn lies in the range (rand documents a uniform
/// sample from `[low, high)`, and panics only on an empty range, which
/// `requires` rules out). Which value comes out is left open.
#[verifier::external_body]
pub(crate) fn gen_range_u32(rng: &mut StdRng, low: u32, high: u32) -> (r: u32)
    requires
        low < high,
    ensures
        low <= r < high,
{
    rng.gen_range(low..high)
}

/// `Rng::gen_range` over the half-open `usize` range `low..high`.
/// Claims that the value drawn lies in the range; which one is left open.
#[verifier::external_body]
pub(crate) fn gen_range_usize(rng: &mut StdRng, low: usize, high: usize) -> (r: usize)
    requires
        low < high,
    ensures
        low <= r < high,
{
    rng.gen_range(low..high)
}

/// `Rng::gen_range` over the inclusive `u32` range `low..=high`.
/// Claims that the value drawn lies in the range; which one is left open.
#[verifier::external_body]
pub(crate) fn gen_range_inclusive_u32(rng: &mut StdRng, low: u32, high: u32) -> (r: u32)
    requires
        low <= high,
    ensures
        low <= r <= high,
{
    rng.gen_range(low..=high)
}

/// `Rng::gen_ratio`: a coin that comes up `true` with chance
/// `numerator / denominator`. rand guarantees `true` when the two are equal
/// and `false` when the numerator is 0; otherwise the outcome is left open.
/// rand panics when `denominator == 0` or `numerator > denominator`.
#[verifier::external_body]
pub(crate) fn gen_ratio(rng: &mut StdRng, numerator: u32, denominator: u32) -> (r: bool)
    requires
        0 < denominator,
        numerator <= denominator,
    ensures
        numerator == denominator ==> r,
        numerator == 0 ==> !r,
{
    rng.gen_ratio(numerator, denominator)
}

/// `uuid::Uuid::new_v4`, as its 128-bit big-endian value (`Uuid::as_u128`).
/// Claims only what uuid's source sets on every draw: the version nibble is 4
/// and the variant bits are `10`. The other 122 bits are random.
#[verifier::external_body]
pub(crate) fn new_v4_id() -> (id: u128)
    ensures
        id & 0xF000C000000000000000u128 == 0x40008000000000000000u128,
{
    uuid::Uuid::new_v4().as_u128()
}

} // verus!
