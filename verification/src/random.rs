use rand::Rng;
use vstd::prelude::*;

verus! {

/// Relies on rand_distr's `Uniform::new_inclusive` and rand's
/// thread-local generator: samples of the closed integer range lie in
/// that range.  Returns a fixed-point fraction of one, in `[0, SCALE]`.
#[verifier::external_body]
pub fn sample_unit() -> (r: i64)
    ensures
        0 <= r <= crate::math::SCALE,
{
    let d = rand_distr::Uniform::new_inclusive(0i64, crate::math::SCALE);
    rand::thread_rng().sample(d)
}

/// Relies on rand_distr's `Uniform::new_inclusive` and rand's
/// thread-local generator: samples of the closed integer range lie in
/// that range.  Returns a fixed-point value in `[-SCALE, SCALE]`.
#[verifier::external_body]
pub fn sample_signed_unit() -> (r: i64)
    ensures
        -crate::math::SCALE <= r <= crate::math::SCALE,
{
    let d = rand_distr::Uniform::new_inclusive(-crate::math::SCALE, crate::math::SCALE);
    rand::thread_rng().sample(d)
}

} // verus!
