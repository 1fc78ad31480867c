use vstd::prelude::*;

verus! {

/// Largest magnitude of a bound handed to `random_between`.
pub const RANDOM_LIMIT: i64 = 1_000_000_000_000;

/// Relies on macroquad::rand::rand (quad-rand's global generator): some `u32`;
/// nothing more is promised of it.
#[verifier::external_body]
pub(crate) fn random_u32() -> u32 {
    macroquad::rand::rand()
}

/// Relies on macroquad::rand::gen_range for `i64`: it scales a draw in [0, 1) onto
/// [low, high) in `f64` and truncates, which for bounds exact in `f64` stays within
/// [low, high].
#[verifier::external_body]
pub(crate) fn random_between(low: i64, high: i64) -> (r: i64)
    requires
        -RANDOM_LIMIT <= low <= high <= RANDOM_LIMIT,
    ensures
        low <= r <= high,
{
    macroquad::rand::gen_range(low, high)
}

} // verus!
