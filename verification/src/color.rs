//! Linear-light RGB colors.

use vstd::prelude::*;
use crate::random::thread_uniform_between;
use crate::scalar::Scalar;

verus! {

/// A color as three channel intensities; not clamped until it is encoded.
#[allow(non_snake_case)]
#[derive(Clone, Copy, Debug, PartialEq, Eq, Structural)]
pub struct RGBColor {
    pub R: Scalar,
    pub G: Scalar,
    pub B: Scalar,
}

impl RGBColor {
    /// Validity: every channel is a valid scalar.
    pub open spec fn wf(self) -> bool {
        self.R.wf() && self.G.wf() && self.B.wf()
    }

    /// Black.
    pub open spec fn spec_zeros() -> RGBColor {
        RGBColor { R: Scalar::spec_zero(), G: Scalar::spec_zero(), B: Scalar::spec_zero() }
    }

    /// White.
    pub open spec fn spec_ones() -> RGBColor {
        RGBColor { R: Scalar::spec_one(), G: Scalar::spec_one(), B: Scalar::spec_one() }
    }

    /// Channel-wise sum.
    pub open spec fn spec_add(self, rhs: RGBColor) -> RGBColor {
        RGBColor {
            R: self.R.spec_add(rhs.R),
            G: self.G.spec_add(rhs.G),
            B: self.B.spec_add(rhs.B),
        }
    }

    /// Channel-wise difference.
    pub open spec fn spec_sub(self, rhs: RGBColor) -> RGBColor {
        RGBColor {
            R: self.R.spec_sub(rhs.R),
            G: self.G.spec_sub(rhs.G),
            B: self.B.spec_sub(rhs.B),
        }
    }

    /// Channel-wise product.
    pub open spec fn spec_mul(self, rhs: RGBColor) -> RGBColor {
        RGBColor {
            R: self.R.spec_mul(rhs.R),
            G: self.G.spec_mul(rhs.G),
            B: self.B.spec_mul(rhs.B),
        }
    }

    /// Every channel multiplied by `k`.
    pub open spec fn spec_scale(self, k: Scalar) -> RGBColor {
        RGBColor { R: self.R.spec_mul(k), G: self.G.spec_mul(k), B: self.B.spec_mul(k) }
    }

    /// Every channel divided by `k`.
    pub open spec fn spec_div(self, k: Scalar) -> RGBColor {
        RGBColor { R: self.R.spec_div(k), G: self.G.spec_div(k), B: self.B.spec_div(k) }
    }

    /// The color with every channel at its default, zero.
    pub fn new() -> (c: RGBColor)
        ensures
            c == RGBColor::spec_zeros(),
    {
        RGBColor { R: Scalar::default(), G: Scalar::default(), B: Scalar::default() }
    }

    pub fn zeros() -> (c: RGBColor)
        ensures
            c == RGBColor::spec_zeros(),
    {
        RGBColor { R: Scalar::zero(), G: Scalar::zero(), B: Scalar::zero() }
    }

    pub fn ones() -> (c: RGBColor)
        ensures
            c == RGBColor::spec_ones(),
    {
        RGBColor { R: Scalar::one(), G: Scalar::one(), B: Scalar::one() }
    }

    /// Whether every channel lies in `[lower, upper)`.
    pub open spec fn spec_within(self, lower: Scalar, upper: Scalar) -> bool {
        &&& lower.raw() <= self.R.raw() < upper.raw()
        &&& lower.raw() <= self.G.raw() < upper.raw()
        &&& lower.raw() <= self.B.raw() < upper.raw()
    }

    /// A color whose channels are drawn from `[lower_bound, upper_bound)`
    /// with the thread's generator. The interval must not be empty.
    pub fn random_uniform(
        lower_bound: Scalar,
        upper_bound: Scalar,
        rng: &mut rand::rngs::ThreadRng,
    ) -> (c: RGBColor)
        requires
            lower_bound.raw() < upper_bound.raw(),
        ensures
            c.spec_within(lower_bound, upper_bound),
    {
        RGBColor {
            R: thread_uniform_between(rng, lower_bound, upper_bound),
            G: thread_uniform_between(rng, lower_bound, upper_bound),
            B: thread_uniform_between(rng, lower_bound, upper_bound),
        }
    }
}

impl core::ops::Add for RGBColor {
    type Output = RGBColor;

    fn add(self, rhs: RGBColor) -> (r: RGBColor) {
        RGBColor { R: self.R + rhs.R, G: self.G + rhs.G, B: self.B + rhs.B }
    }
}

impl vstd::std_specs::ops::AddSpecImpl for RGBColor {
    open spec fn obeys_add_spec() -> bool {
        true
    }

    open spec fn add_req(self, rhs: RGBColor) -> bool {
        true
    }

    open spec fn add_spec(self, rhs: RGBColor) -> RGBColor {
        self.spec_add(rhs)
    }
}

impl core::ops::Sub for RGBColor {
    type Output = RGBColor;

    fn sub(self, rhs: RGBColor) -> (r: RGBColor) {
        RGBColor { R: self.R - rhs.R, G: self.G - rhs.G, B: self.B - rhs.B }
    }
}

impl vstd::std_specs::ops::SubSpecImpl for RGBColor {
    open spec fn obeys_sub_spec() -> bool {
        true
    }

    open spec fn sub_req(self, rhs: RGBColor) -> bool {
        true
    }

    open spec fn sub_spec(self, rhs: RGBColor) -> RGBColor {
        self.spec_sub(rhs)
    }
}

impl core::ops::Mul for RGBColor {
    type Output = RGBColor;

    fn mul(self, rhs: RGBColor) -> (r: RGBColor) {
        RGBColor { R: self.R * rhs.R, G: self.G * rhs.G, B: self.B * rhs.B }
    }
}

impl vstd::std_specs::ops::MulSpecImpl for RGBColor {
    open spec fn obeys_mul_spec() -> bool {
        true
    }

    open spec fn mul_req(self, rhs: RGBColor) -> bool {
        true
    }

    open spec fn mul_spec(self, rhs: RGBColor) -> RGBColor {
        self.spec_mul(rhs)
    }
}

impl core::ops::Mul<Scalar> for RGBColor {
    type Output = RGBColor;

    fn mul(self, rhs: Scalar) -> (r: RGBColor) {
        RGBColor { R: self.R * rhs, G: self.G * rhs, B: self.B * rhs }
    }
}

impl vstd::std_specs::ops::MulSpecImpl<Scalar> for RGBColor {
    open spec fn obeys_mul_spec() -> bool {
        true
    }

    open spec fn mul_req(self, rhs: Scalar) -> bool {
        true
    }

    open spec fn mul_spec(self, rhs: Scalar) -> RGBColor {
        self.spec_scale(rhs)
    }
}

impl core::ops::Div<Scalar> for RGBColor {
    type Output = RGBColor;

    fn div(self, rhs: Scalar) -> (r: RGBColor) {
        RGBColor { R: self.R / rhs, G: self.G / rhs, B: self.B / rhs }
    }
}

impl vstd::std_specs::ops::DivSpecImpl<Scalar> for RGBColor {
    open spec fn obeys_div_spec() -> bool {
        true
    }

    open spec fn div_req(self, rhs: Scalar) -> bool {
        rhs.raw() != 0
    }

    open spec fn div_spec(self, rhs: Scalar) -> RGBColor {
        self.spec_div(rhs)
    }
}

} // verus!
