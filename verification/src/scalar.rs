//! The fixed-point real number on which all geometry is computed.

use vstd::prelude::*;
use core::cmp::Ordering;
use crate::fixed::{
    int_sqrt, int_sqrt_u128, saturate, saturate_i128, trunc_div, trunc_div_i128, RAW_MAX, SCALE,
};

verus! {

/// A real number held as a count of billionths.
///
/// Every value satisfies `-RAW_MAX <= raw <= RAW_MAX`, so that negation is
/// exact. Arithmetic rounds toward zero and saturates at the ends of that
/// interval; the largest value stands for "unbounded".
#[derive(Clone, Copy, Debug, PartialEq, Eq, Structural)]
pub struct Scalar {
    raw: i64,
}

impl Scalar {
    /// The count of billionths that this value stands for.
    pub closed spec fn raw(self) -> int {
        self.raw as int
    }

    /// Validity of a value: its raw count lies in the symmetric interval.
    #[verifier::type_invariant]
    pub open spec fn wf(self) -> bool {
        -RAW_MAX <= self.raw() <= RAW_MAX
    }

    /// The value whose raw count is `raw`, saturated.
    pub closed spec fn spec_from_raw(raw: int) -> Scalar {
        Scalar { raw: saturate(raw) as i64 }
    }

    pub open spec fn spec_from_int(n: int) -> Scalar {
        Scalar::spec_from_raw(n * SCALE)
    }

    pub open spec fn spec_zero() -> Scalar {
        Scalar::spec_from_raw(0)
    }

    pub open spec fn spec_one() -> Scalar {
        Scalar::spec_from_raw(SCALE as int)
    }

    /// The largest value, which stands for "no upper bound".
    pub open spec fn spec_max() -> Scalar {
        Scalar::spec_from_raw(RAW_MAX as int)
    }

    /// Sum, saturated.
    pub open spec fn spec_add(self, rhs: Scalar) -> Scalar {
        Scalar::spec_from_raw(self.raw() + rhs.raw())
    }

    /// Difference, saturated.
    pub open spec fn spec_sub(self, rhs: Scalar) -> Scalar {
        Scalar::spec_from_raw(self.raw() - rhs.raw())
    }

    /// Negation, exact on valid values.
    pub open spec fn spec_neg(self) -> Scalar {
        Scalar::spec_from_raw(-self.raw())
    }

    /// Product, rounded toward zero to a billionth and saturated.
    pub open spec fn spec_mul(self, rhs: Scalar) -> Scalar {
        Scalar::spec_from_raw(trunc_div(self.raw() * rhs.raw(), SCALE as int))
    }

    /// Quotient, rounded toward zero to a billionth and saturated
    /// (meaningful for a non-zero divisor).
    pub open spec fn spec_div(self, rhs: Scalar) -> Scalar {
        Scalar::spec_from_raw(trunc_div(self.raw() * SCALE, rhs.raw()))
    }

    /// Square root, rounded down to a billionth (meaningful for a
    /// non-negative value).
    pub open spec fn spec_sqrt(self) -> Scalar {
        Scalar::spec_from_raw(int_sqrt(self.raw() * SCALE))
    }

    /// `x` limited to the interval from `min` to `max`.
    pub open spec fn spec_clamp(x: Scalar, min: Scalar, max: Scalar) -> Scalar {
        if x.raw() < min.raw() {
            min
        } else if x.raw() > max.raw() {
            max
        } else {
            x
        }
    }

    pub fn from_raw(raw: i64) -> (r: Scalar)
        ensures
            r == Scalar::spec_from_raw(raw as int),
    {
        Scalar { raw: saturate_i128(raw as i128) }
    }

    /// The value with the given wide raw count, saturated.
    pub(crate) fn from_wide(raw: i128) -> (r: Scalar)
        ensures
            r == Scalar::spec_from_raw(raw as int),
    {
        Scalar { raw: saturate_i128(raw) }
    }

    /// The value with the given raw count, which is not negative, saturated.
    pub(crate) fn from_u128(raw: u128) -> (r: Scalar)
        ensures
            r == Scalar::spec_from_raw(raw as int),
    {
        if raw > RAW_MAX as u128 {
            Scalar { raw: RAW_MAX }
        } else {
            Scalar { raw: raw as i64 }
        }
    }

    pub fn from_int(n: i64) -> (r: Scalar)
        ensures
            r == Scalar::spec_from_int(n as int),
    {
        assert(-RAW_MAX * SCALE - SCALE <= n * SCALE <= RAW_MAX * SCALE) by (nonlinear_arith)
            requires
                -RAW_MAX - 1 <= n <= RAW_MAX,
                SCALE == 1_000_000_000,
        ;
        Scalar { raw: saturate_i128(n as i128 * SCALE as i128) }
    }

    pub fn zero() -> (r: Scalar)
        ensures
            r == Scalar::spec_zero(),
    {
        Scalar { raw: 0 }
    }

    pub fn one() -> (r: Scalar)
        ensures
            r == Scalar::spec_one(),
    {
        Scalar { raw: SCALE }
    }

    pub fn max_value() -> (r: Scalar)
        ensures
            r == Scalar::spec_max(),
    {
        Scalar { raw: RAW_MAX }
    }

    pub fn is_zero(&self) -> (r: bool)
        ensures
            r == (self.raw() == 0),
    {
        self.raw == 0
    }

    pub fn get_raw(&self) -> (r: i64)
        ensures
            r == self.raw(),
            self.wf(),
    {
        proof {
            use_type_invariant(self);
        }
        self.raw
    }

    /// The whole part of the value, rounded toward zero.
    pub fn to_int(&self) -> (n: i64)
        ensures
            n == trunc_div(self.raw(), SCALE as int),
    {
        trunc_div_i128(self.raw as i128, SCALE as i128) as i64
    }

    /// Square root of a value known not to be negative.
    pub(crate) fn sqrt_of_nonneg(self) -> (r: Scalar)
        requires
            self.raw() >= 0,
        ensures
            r == self.spec_sqrt(),
            r.raw() >= 0,
    {
        assert(0 <= self.raw * SCALE <= RAW_MAX * SCALE) by (nonlinear_arith)
            requires
                0 <= self.raw <= RAW_MAX,
                SCALE == 1_000_000_000,
        ;
        Scalar::from_u128(int_sqrt_u128(self.raw as u128 * SCALE as u128))
    }

    /// The value of a wide count of squared units, given by sign and
    /// magnitude: the count divided by the scale, rounded toward zero and
    /// saturated.
    pub(crate) fn rounded(negative: bool, magnitude: u128) -> (r: Scalar)
        ensures
            r == Scalar::spec_from_raw(
                trunc_div(
                    if negative {
                        -(magnitude as int)
                    } else {
                        magnitude as int
                    },
                    SCALE as int,
                ),
            ),
    {
        let q: u128 = magnitude / (SCALE as u128);
        let positive = Scalar::from_u128(q);
        if negative {
            Scalar { raw: -positive.raw }
        } else {
            positive
        }
    }

    /// The magnitude of the raw count.
    pub(crate) fn magnitude(&self) -> (m: i64)
        ensures
            m == if self.raw() >= 0 {
                self.raw()
            } else {
                -self.raw()
            },
            0 <= m <= RAW_MAX,
            m * m == self.raw() * self.raw(),
    {
        proof {
            use_type_invariant(self);
            assert((-self.raw) * (-self.raw) == self.raw * self.raw) by (nonlinear_arith);
        }
        if self.raw >= 0 {
            self.raw
        } else {
            -self.raw
        }
    }

    /// The value times a whole factor, saturated.
    pub open spec fn spec_times(self, k: int) -> Scalar {
        Scalar::spec_from_raw(self.raw() * k)
    }

    /// The value times a whole factor, saturated.
    pub fn times(self, k: i64) -> (r: Scalar)
        ensures
            r == self.spec_times(k as int),
    {
        proof {
            use_type_invariant(&self);
        }
        assert(-0x4000_0000_0000_0000_0000_0000_0000_0000 <= self.raw * k
            <= 0x4000_0000_0000_0000_0000_0000_0000_0000) by (nonlinear_arith)
            requires
                -0x8000_0000_0000_0000 <= self.raw <= 0x8000_0000_0000_0000,
                -0x8000_0000_0000_0000 <= k <= 0x8000_0000_0000_0000,
        ;
        Scalar { raw: saturate_i128(self.raw as i128 * k as i128) }
    }

    /// Square root; `None` exactly for a negative value.
    pub fn sqrt(self) -> (r: Option<Scalar>)
        ensures
            self.raw() < 0 ==> r.is_none(),
            self.raw() >= 0 ==> r == Some(self.spec_sqrt()),
    {
        if self.raw < 0 {
            None
        } else {
            Some(self.sqrt_of_nonneg())
        }
    }
}

/// The raw count of a value built from an integer is that integer, saturated.
pub broadcast proof fn lemma_raw_of_from_raw(raw: int)
    ensures
        #[trigger] Scalar::spec_from_raw(raw).raw() == saturate(raw),
{
}

/// Two values with the same raw count are the same value.
pub proof fn lemma_raw_injective(a: Scalar, b: Scalar)
    requires
        a.raw() == b.raw(),
    ensures
        a == b,
{
}

impl Default for Scalar {
    fn default() -> (r: Scalar)
        ensures
            r == Scalar::spec_zero(),
    {
        Scalar { raw: 0 }
    }
}

impl core::ops::Add for Scalar {
    type Output = Scalar;

    fn add(self, rhs: Scalar) -> (r: Scalar) {
        Scalar { raw: saturate_i128(self.raw as i128 + rhs.raw as i128) }
    }
}

impl vstd::std_specs::ops::AddSpecImpl for Scalar {
    open spec fn obeys_add_spec() -> bool {
        true
    }

    open spec fn add_req(self, rhs: Scalar) -> bool {
        true
    }

    open spec fn add_spec(self, rhs: Scalar) -> Scalar {
        self.spec_add(rhs)
    }
}

impl core::ops::Sub for Scalar {
    type Output = Scalar;

    fn sub(self, rhs: Scalar) -> (r: Scalar) {
        Scalar { raw: saturate_i128(self.raw as i128 - rhs.raw as i128) }
    }
}

impl vstd::std_specs::ops::SubSpecImpl for Scalar {
    open spec fn obeys_sub_spec() -> bool {
        true
    }

    open spec fn sub_req(self, rhs: Scalar) -> bool {
        true
    }

    open spec fn sub_spec(self, rhs: Scalar) -> Scalar {
        self.spec_sub(rhs)
    }
}

impl core::ops::Neg for Scalar {
    type Output = Scalar;

    fn neg(self) -> (r: Scalar) {
        Scalar { raw: saturate_i128(-(self.raw as i128)) }
    }
}

impl vstd::std_specs::ops::NegSpecImpl for Scalar {
    open spec fn obeys_neg_spec() -> bool {
        true
    }

    open spec fn neg_req(self) -> bool {
        true
    }

    open spec fn neg_spec(self) -> Scalar {
        self.spec_neg()
    }
}

impl core::ops::Mul for Scalar {
    type Output = Scalar;

    fn mul(self, rhs: Scalar) -> (r: Scalar) {
        let a: i128 = self.raw as i128;
        let b: i128 = rhs.raw as i128;
        assert(-0x4000_0000_0000_0000_0000_0000_0000_0000 <= a * b
            <= 0x4000_0000_0000_0000_0000_0000_0000_0000) by (nonlinear_arith)
            requires
                -0x8000_0000_0000_0000 <= a <= 0x8000_0000_0000_0000,
                -0x8000_0000_0000_0000 <= b <= 0x8000_0000_0000_0000,
        ;
        let q: i128 = trunc_div_i128(a * b, SCALE as i128);
        Scalar { raw: saturate_i128(q) }
    }
}

impl vstd::std_specs::ops::MulSpecImpl for Scalar {
    open spec fn obeys_mul_spec() -> bool {
        true
    }

    open spec fn mul_req(self, rhs: Scalar) -> bool {
        true
    }

    open spec fn mul_spec(self, rhs: Scalar) -> Scalar {
        self.spec_mul(rhs)
    }
}

impl core::ops::Div for Scalar {
    type Output = Scalar;

    fn div(self, rhs: Scalar) -> (r: Scalar) {
        let a: i128 = self.raw as i128;
        assert(-0x8000_0000_0000_0000 * 1_000_000_000 <= a * SCALE
            <= 0x8000_0000_0000_0000 * 1_000_000_000) by (nonlinear_arith)
            requires
                -0x8000_0000_0000_0000 <= a <= 0x8000_0000_0000_0000,
                SCALE == 1_000_000_000,
        ;
        let q: i128 = trunc_div_i128(a * SCALE as i128, rhs.raw as i128);
        Scalar { raw: saturate_i128(q) }
    }
}

impl vstd::std_specs::ops::DivSpecImpl for Scalar {
    open spec fn obeys_div_spec() -> bool {
        true
    }

    open spec fn div_req(self, rhs: Scalar) -> bool {
        rhs.raw() != 0
    }

    open spec fn div_spec(self, rhs: Scalar) -> Scalar {
        self.spec_div(rhs)
    }
}

impl PartialOrd for Scalar {
    fn partial_cmp(&self, other: &Scalar) -> (r: Option<Ordering>) {
        if self.raw < other.raw {
            Some(Ordering::Less)
        } else if self.raw > other.raw {
            Some(Ordering::Greater)
        } else {
            Some(Ordering::Equal)
        }
    }
}

impl vstd::std_specs::cmp::PartialOrdSpecImpl for Scalar {
    open spec fn obeys_partial_cmp_spec() -> bool {
        true
    }

    open spec fn partial_cmp_spec(&self, other: &Scalar) -> Option<Ordering> {
        if self.raw() < other.raw() {
            Some(Ordering::Less)
        } else if self.raw() > other.raw() {
            Some(Ordering::Greater)
        } else {
            Some(Ordering::Equal)
        }
    }
}

} // verus!
