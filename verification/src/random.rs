//! Random integers from the generators that the caller owns and passes in.

use vstd::prelude::*;
use crate::fixed::SCALE;
use crate::scalar::{lemma_raw_of_from_raw, Scalar};

verus! {

broadcast use lemma_raw_of_from_raw;

#[verifier::external_type_specification]
#[verifier::external_body]
pub struct ExFastRng(fastrand::Rng);

#[verifier::external_type_specification]
#[verifier::external_body]
pub struct ExThreadRng(rand::rngs::ThreadRng);

/// Calls `fastrand::Rng::i64` on the half-open range `low..high`. That
/// method panics on an empty range, which the precondition excludes, and
/// returns `low` plus a number below the length of the range: a value of
/// the range. Which value is not stated.
#[verifier::external_body]
pub(crate) fn fast_i64_in(rng: &mut fastrand::Rng, low: i64, high: i64) -> (r: i64)
    requires
        low < high,
    ensures
        low <= r < high,
{
    rng.i64(low..high)
}

/// Calls `rand::Rng::gen_range` on the half-open range `low..high`. That
/// method panics on an empty range, which the precondition excludes, and
/// returns a value of the range. Which value is not stated.
#[verifier::external_body]
pub(crate) fn thread_i64_in(rng: &mut rand::rngs::ThreadRng, low: i64, high: i64) -> (r: i64)
    requires
        low < high,
    ensures
        low <= r < high,
{
    rand::Rng::gen_range(rng, low..high)
}

/// Whether `u` lies in `[0, 1)`.
pub open spec fn is_unit_fraction(u: Scalar) -> bool {
    0 <= u.raw() < SCALE
}

/// The point `min + u * (max - min)`.
pub open spec fn spec_interpolate(min: Scalar, max: Scalar, u: Scalar) -> Scalar {
    min.spec_add(u.spec_mul(max.spec_sub(min)))
}

/// The point between `min` and `max` at the fraction `u`. For a fraction in
/// `[0, 1)` and `min < max` the point lies in `[min, max)`.
pub fn interpolate(min: Scalar, max: Scalar, u: Scalar) -> (r: Scalar)
    ensures
        r == spec_interpolate(min, max, u),
        is_unit_fraction(u) && min.raw() < max.raw() ==> min.raw() <= r.raw() < max.raw(),
{
    proof {
        use_type_invariant(&min);
        use_type_invariant(&max);
        if is_unit_fraction(u) && min.raw() < max.raw() {
            let d = max.spec_sub(min).raw();
            assert(0 < d <= max.raw() - min.raw());
            assert(0 <= u.raw() * d < SCALE * d) by (nonlinear_arith)
                requires
                    0 <= u.raw() < SCALE,
                    0 < d,
            ;
            assert(0 <= (u.raw() * d) / (SCALE as int) < d) by (nonlinear_arith)
                requires
                    0 <= u.raw() * d < SCALE * d,
                    SCALE > 0,
            ;
        }
    }
    min + u * (max - min)
}

/// A fraction in `[0, 1)`, drawn from the generator.
pub fn generate_unit_fraction(rng: &mut fastrand::Rng) -> (u: Scalar)
    ensures
        is_unit_fraction(u),
{
    Scalar::from_raw(fast_i64_in(rng, 0, SCALE))
}

/// A number of `[lower, upper)`, drawn from the thread's generator.
pub fn thread_uniform_between(rng: &mut rand::rngs::ThreadRng, lower: Scalar, upper: Scalar) -> (r:
    Scalar)
    requires
        lower.raw() < upper.raw(),
    ensures
        lower.raw() <= r.raw() < upper.raw(),
{
    let low: i64 = lower.get_raw();
    let high: i64 = upper.get_raw();
    Scalar::from_raw(thread_i64_in(rng, low, high))
}

} // verus!
