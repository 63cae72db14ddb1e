//! Random numbers, drawn from the `rand` crate's standard generator.
use vstd::prelude::*;
use rand::Rng;

verus! {

#[verifier::external_type_specification]
#[verifier::external_body]
pub struct ExStdRng(rand::rngs::StdRng);

/// `rand::Rng::gen::<u16>` on the standard generator: any `u16`.
#[verifier::external_body]
pub(crate) fn random_u16(rng: &mut rand::rngs::StdRng) -> (r: u16) {
    rng.gen::<u16>()
}

/// `rand::Rng::gen::<u32>` on the standard generator: any `u32`.
#[verifier::external_body]
pub(crate) fn random_u32(rng: &mut rand::rngs::StdRng) -> (r: u32) {
    rng.gen::<u32>()
}

/// `rand::Rng::gen_range(low, high)` on `i32`: a value in `low..high`; the
/// crate panics when `low >= high`, which `requires` leaves out.
#[verifier::external_body]
pub(crate) fn random_range_i32(rng: &mut rand::rngs::StdRng, low: i32, high: i32) -> (r: i32)
    requires
        low < high,
    ensures
        low <= r < high,
{
    rng.gen_range(low, high)
}

} // verus!
