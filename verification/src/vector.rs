//! Two- and three-component vectors over the fixed-point scalar.

use vstd::prelude::*;
use crate::error::GeometryError;
use crate::scalar::{lemma_raw_of_from_raw, Scalar};
use crate::fixed::{
    abs, int_sqrt, int_sqrt_u128, lemma_int_sqrt_monotone, lemma_int_sqrt_of_square,
    lemma_trunc_div_cancel, lemma_trunc_div_monotone, lemma_trunc_div_neg, trunc_div, RAW_MAX,
    SCALE,
};
use crate::random::{
    generate_unit_fraction, interpolate, is_unit_fraction, spec_interpolate, thread_uniform_between,
};

verus! {

broadcast use lemma_raw_of_from_raw;

/// The operations that every vector type offers.
pub trait VectorOperations: Sized {
    /// The dot product of the two vectors.
    spec fn spec_inner_product(&self, other: &Self) -> Scalar;

    /// The Euclidean norm of the vector.
    spec fn spec_length(&self) -> Scalar;

    /// The vector divided by its own norm.
    spec fn spec_unit_vector(&self) -> Self;

    /// The projection onto `other`: `other * dot(self, other) / dot(other, other)`.
    spec fn spec_project(&self, other: &Self) -> Self;

    fn inner_product(&self, other: &Self) -> (r: Scalar)
        ensures
            r == self.spec_inner_product(other),
    ;

    /// Euclidean norm: the square root, rounded down to a billionth, of the
    /// exact sum of the squared components. It is zero for the zero vector
    /// only.
    fn norm(&self) -> (r: Scalar)
        ensures
            r == self.spec_length(),
            r.raw() >= 0,
    ;

    /// Divides the vector by its norm in place; the zero vector is left as
    /// it is and reported.
    fn normalize(&mut self) -> (r: Result<(), GeometryError>)
        ensures
            old(self).spec_length().raw() == 0 ==> r == Err::<(), GeometryError>(
                GeometryError::ZeroNorm,
            ) && *final(self) == *old(self),
            old(self).spec_length().raw() != 0 ==> r == Ok::<(), GeometryError>(()) && *final(self)
                == old(self).spec_unit_vector(),
    ;

    /// The vector divided by its norm; an error for the zero vector.
    fn unit_vector(&self) -> (r: Result<Self, GeometryError>)
        ensures
            self.spec_length().raw() == 0 ==> r == Err::<Self, GeometryError>(
                GeometryError::ZeroNorm,
            ),
            self.spec_length().raw() != 0 ==> r == Ok::<Self, GeometryError>(
                self.spec_unit_vector(),
            ),
    ;

    /// The projection of `self` onto `other`; an error where `other` is the
    /// zero vector.
    fn project(&self, other: &Self) -> (r: Result<Self, GeometryError>)
        ensures
            other.spec_length().raw() == 0 ==> r == Err::<Self, GeometryError>(
                GeometryError::ZeroNorm,
            ),
            other.spec_length().raw() != 0 ==> r == Ok::<Self, GeometryError>(
                self.spec_project(other),
            ),
    ;
}

/// The larger of two integers.
pub open spec fn spec_larger(a: int, b: int) -> int {
    if a >= b {
        a
    } else {
        b
    }
}

/// A vector of three scalars.
#[derive(Clone, Copy, Debug, PartialEq, Eq, Structural)]
pub struct Vector3D {
    pub x: Scalar,
    pub y: Scalar,
    pub z: Scalar,
}

impl Vector3D {
    /// Validity: every component is a valid scalar.
    pub open spec fn wf(self) -> bool {
        self.x.wf() && self.y.wf() && self.z.wf()
    }

    pub open spec fn spec_zeros() -> Vector3D {
        Vector3D { x: Scalar::spec_zero(), y: Scalar::spec_zero(), z: Scalar::spec_zero() }
    }

    pub open spec fn spec_ones() -> Vector3D {
        Vector3D { x: Scalar::spec_one(), y: Scalar::spec_one(), z: Scalar::spec_one() }
    }

    /// Component-wise sum.
    pub open spec fn spec_add(self, rhs: Vector3D) -> Vector3D {
        Vector3D {
            x: self.x.spec_add(rhs.x),
            y: self.y.spec_add(rhs.y),
            z: self.z.spec_add(rhs.z),
        }
    }

    /// Component-wise difference.
    pub open spec fn spec_sub(self, rhs: Vector3D) -> Vector3D {
        Vector3D {
            x: self.x.spec_sub(rhs.x),
            y: self.y.spec_sub(rhs.y),
            z: self.z.spec_sub(rhs.z),
        }
    }

    /// Component-wise product.
    pub open spec fn spec_mul(self, rhs: Vector3D) -> Vector3D {
        Vector3D {
            x: self.x.spec_mul(rhs.x),
            y: self.y.spec_mul(rhs.y),
            z: self.z.spec_mul(rhs.z),
        }
    }

    /// Every component multiplied by `k`.
    pub open spec fn spec_scale(self, k: Scalar) -> Vector3D {
        Vector3D { x: self.x.spec_mul(k), y: self.y.spec_mul(k), z: self.z.spec_mul(k) }
    }

    /// Every component divided by `k`.
    pub open spec fn spec_div(self, k: Scalar) -> Vector3D {
        Vector3D { x: self.x.spec_div(k), y: self.y.spec_div(k), z: self.z.spec_div(k) }
    }

    /// Every component negated.
    pub open spec fn spec_neg(self) -> Vector3D {
        Vector3D { x: self.x.spec_neg(), y: self.y.spec_neg(), z: self.z.spec_neg() }
    }

    /// The exact dot product of the raw components, in squared units.
    pub open spec fn spec_exact_dot(self, rhs: Vector3D) -> int {
        self.x.raw() * rhs.x.raw() + self.y.raw() * rhs.y.raw() + self.z.raw() * rhs.z.raw()
    }

    /// Dot product: `x*x' + y*y' + z*z'`, formed exactly and rounded once.
    pub open spec fn spec_dot(self, rhs: Vector3D) -> Scalar {
        Scalar::spec_from_raw(trunc_div(self.spec_exact_dot(rhs), SCALE as int))
    }

    /// The exact sum of the squared raw components.
    pub open spec fn spec_square_sum(self) -> int {
        self.x.raw() * self.x.raw() + self.y.raw() * self.y.raw() + self.z.raw() * self.z.raw()
    }

    /// Euclidean norm: the square root, rounded down to a billionth, of the
    /// exact sum of the squared components.
    pub open spec fn spec_norm(self) -> Scalar {
        Scalar::spec_from_raw(int_sqrt(self.spec_square_sum()))
    }

    /// The largest absolute raw component.
    pub open spec fn spec_largest(self) -> int {
        spec_larger(abs(self.x.raw()), spec_larger(abs(self.y.raw()), abs(self.z.raw())))
    }

    /// The whole factor by which a vector is stretched before it is
    /// normalized: one for a vector with a component of at least one (and
    /// for the zero vector), else the least factor that brings the largest
    /// component to one or more.
    pub open spec fn spec_stretch(self) -> int {
        let m = self.spec_largest();
        if m == 0 || m >= SCALE {
            1
        } else {
            (SCALE + m - 1) / m
        }
    }

    /// The vector times its stretch factor, which is exact.
    pub open spec fn spec_stretched(self) -> Vector3D {
        let k = self.spec_stretch();
        Vector3D { x: self.x.spec_times(k), y: self.y.spec_times(k), z: self.z.spec_times(k) }
    }

    /// The vector divided by its own norm. The division is made on the
    /// stretched vector, which has the same direction, so that a short
    /// vector loses nothing to rounding.
    pub open spec fn spec_unit(self) -> Vector3D {
        let w = self.spec_stretched();
        let n = int_sqrt(w.spec_square_sum());
        Vector3D {
            x: Scalar::spec_from_raw(trunc_div(w.x.raw() * SCALE, n)),
            y: Scalar::spec_from_raw(trunc_div(w.y.raw() * SCALE, n)),
            z: Scalar::spec_from_raw(trunc_div(w.z.raw() * SCALE, n)),
        }
    }

    /// The projection onto `rhs`: `w * dot(self, w) / dot(w, w)`, where `w`
    /// is `rhs` stretched, which has the same direction.
    pub open spec fn spec_projection(self, rhs: Vector3D) -> Vector3D {
        let w = rhs.spec_stretched();
        w.spec_scale(self.spec_dot(w)).spec_div(w.spec_dot(w))
    }

    /// Cross product.
    pub open spec fn spec_cross(self, rhs: Vector3D) -> Vector3D {
        Vector3D {
            x: self.y.spec_mul(rhs.z).spec_sub(self.z.spec_mul(rhs.y)),
            y: self.z.spec_mul(rhs.x).spec_sub(self.x.spec_mul(rhs.z)),
            z: self.x.spec_mul(rhs.y).spec_sub(self.y.spec_mul(rhs.x)),
        }
    }

    /// The vector with every component at its default, zero.
    pub fn new() -> (v: Vector3D)
        ensures
            v == Vector3D::spec_zeros(),
    {
        Vector3D { x: Scalar::default(), y: Scalar::default(), z: Scalar::default() }
    }

    pub fn zeros() -> (v: Vector3D)
        ensures
            v == Vector3D::spec_zeros(),
    {
        Vector3D { x: Scalar::zero(), y: Scalar::zero(), z: Scalar::zero() }
    }

    pub fn ones() -> (v: Vector3D)
        ensures
            v == Vector3D::spec_ones(),
    {
        Vector3D { x: Scalar::one(), y: Scalar::one(), z: Scalar::one() }
    }

    /// Whether every component lies in `[lower, upper)`.
    pub open spec fn spec_within(self, lower: Scalar, upper: Scalar) -> bool {
        &&& lower.raw() <= self.x.raw() < upper.raw()
        &&& lower.raw() <= self.y.raw() < upper.raw()
        &&& lower.raw() <= self.z.raw() < upper.raw()
    }

    /// A vector whose components are drawn from `[lower_bound, upper_bound)`
    /// with the thread's generator. The interval must not be empty.
    pub fn random_uniform(
        lower_bound: Scalar,
        upper_bound: Scalar,
        rng: &mut rand::rngs::ThreadRng,
    ) -> (v: Vector3D)
        requires
            lower_bound.raw() < upper_bound.raw(),
        ensures
            v.spec_within(lower_bound, upper_bound),
    {
        Vector3D {
            x: thread_uniform_between(rng, lower_bound, upper_bound),
            y: thread_uniform_between(rng, lower_bound, upper_bound),
            z: thread_uniform_between(rng, lower_bound, upper_bound),
        }
    }

    /// A vector whose components are `lower + u * (upper - lower)` for
    /// fractions `u` drawn from `[0, 1)` with the fast generator. The
    /// interval must not be empty.
    pub fn fast_random_uniform(
        lower_bound: Scalar,
        upper_bound: Scalar,
        rng: &mut fastrand::Rng,
    ) -> (v: Vector3D)
        requires
            lower_bound.raw() < upper_bound.raw(),
        ensures
            v.spec_within(lower_bound, upper_bound),
            exists|ux: Scalar, uy: Scalar, uz: Scalar|
                {
                    &&& is_unit_fraction(ux) && is_unit_fraction(uy) && is_unit_fraction(uz)
                    &&& v == Vector3D {
                        x: spec_interpolate(lower_bound, upper_bound, ux),
                        y: spec_interpolate(lower_bound, upper_bound, uy),
                        z: spec_interpolate(lower_bound, upper_bound, uz),
                    }
                },
    {
        let ux = generate_unit_fraction(rng);
        let uy = generate_unit_fraction(rng);
        let uz = generate_unit_fraction(rng);
        Vector3D {
            x: interpolate(lower_bound, upper_bound, ux),
            y: interpolate(lower_bound, upper_bound, uy),
            z: interpolate(lower_bound, upper_bound, uz),
        }
    }

    pub fn cross_product(&self, other: &Vector3D) -> (v: Vector3D)
        ensures
            v == self.spec_cross(*other),
    {
        Vector3D {
            x: self.y * other.z - self.z * other.y,
            y: self.z * other.x - self.x * other.z,
            z: self.x * other.y - self.y * other.x,
        }
    }
}

/// The exact product of two raw counts.
fn wide_product(a: &Scalar, b: &Scalar) -> (p: i128)
    ensures
        p == a.raw() * b.raw(),
        -0x3fff_ffff_ffff_ffff_0000_0000_0000_0001 <= p <= 0x3fff_ffff_ffff_ffff_0000_0000_0000_0001,
{
    let x: i128 = a.get_raw() as i128;
    let y: i128 = b.get_raw() as i128;
    assert(-0x3fff_ffff_ffff_ffff_0000_0000_0000_0001 <= x * y
        <= 0x3fff_ffff_ffff_ffff_0000_0000_0000_0001) by (nonlinear_arith)
        requires
            -0x7fff_ffff_ffff_ffff <= x <= 0x7fff_ffff_ffff_ffff,
            -0x7fff_ffff_ffff_ffff <= y <= 0x7fff_ffff_ffff_ffff,
    ;
    x * y
}

/// The sum of two wide numbers, by sign and magnitude.
fn signed_sum(a: i128, b: i128) -> (r: (bool, u128))
    requires
        -0x7fff_ffff_ffff_fffe_0000_0000_0000_0002 <= a <= 0x7fff_ffff_ffff_fffe_0000_0000_0000_0002,
        -0x3fff_ffff_ffff_ffff_0000_0000_0000_0001 <= b <= 0x3fff_ffff_ffff_ffff_0000_0000_0000_0001,
    ensures
        a + b == (if r.0 {
            -(r.1 as int)
        } else {
            r.1 as int
        }),
{
    let a_negative = a < 0;
    let b_negative = b < 0;
    let a_size: u128 = if a_negative { (-a) as u128 } else { a as u128 };
    let b_size: u128 = if b_negative { (-b) as u128 } else { b as u128 };
    if a_negative == b_negative {
        (a_negative, a_size + b_size)
    } else if a_size >= b_size {
        (a_negative, a_size - b_size)
    } else {
        (b_negative, b_size - a_size)
    }
}

/// A raw count divided by a wide norm: the quotient times the scale,
/// rounded toward zero and saturated.
fn divided_by_wide(x: &Scalar, n: u128) -> (r: Scalar)
    requires
        0 < n <= 0xffff_ffff_ffff_ffff,
    ensures
        r == Scalar::spec_from_raw(trunc_div(x.raw() * SCALE, n as int)),
{
    let raw: i128 = x.get_raw() as i128;
    assert(-0x7fff_ffff_ffff_ffff * 1_000_000_000 <= raw * SCALE <= 0x7fff_ffff_ffff_ffff
        * 1_000_000_000) by (nonlinear_arith)
        requires
            -0x7fff_ffff_ffff_ffff <= raw <= 0x7fff_ffff_ffff_ffff,
            SCALE == 1_000_000_000,
    ;
    Scalar::from_wide(crate::fixed::trunc_div_i128(raw * SCALE as i128, n as i128))
}

/// The square of a magnitude, which fits.
fn square_u128(m: i64) -> (r: u128)
    requires
        0 <= m,
    ensures
        r == m * m,
        r <= 0x3fff_ffff_ffff_ffff_0000_0000_0000_0001,
{
    assert(m * m <= 0x3fff_ffff_ffff_ffff_0000_0000_0000_0001) by (nonlinear_arith)
        requires
            0 <= m <= 0x7fff_ffff_ffff_ffff,
    ;
    (m as u128) * (m as u128)
}

/// The larger of two numbers.
fn larger(a: i64, b: i64) -> (r: i64)
    ensures
        r == spec_larger(a as int, b as int),
{
    if a >= b {
        a
    } else {
        b
    }
}

/// A component times the stretch factor stays within the larger of twice
/// one and the largest component.
proof fn lemma_stretched_component(x: int, m: int, k: int)
    requires
        abs(x) <= m <= RAW_MAX,
        k >= 1,
        m >= SCALE ==> k == 1,
        m < SCALE ==> SCALE <= m * k < SCALE + m,
    ensures
        abs(x * k) <= m * k <= RAW_MAX,
        abs(x * k) == abs(x) * k,
{
    assert(abs(x * k) == abs(x) * k) by (nonlinear_arith)
        requires
            k >= 1,
    ;
    assert(abs(x) * k <= m * k) by (nonlinear_arith)
        requires
            abs(x) <= m,
            k >= 1,
    ;
    if m >= SCALE {
        assert(m * k == m) by (nonlinear_arith)
            requires
                k == 1,
        ;
    }
}

/// The stretch factor of any vector is at least one.
pub proof fn lemma_stretch_positive(v: Vector3D)
    ensures
        v.spec_stretch() >= 1,
{
    let m = v.spec_largest();
    if 0 < m < SCALE {
        assert((SCALE + m - 1) / m >= 1) by (nonlinear_arith)
            requires
                0 < m < SCALE,
        ;
    }
}

/// A number divided by a positive number that is at least its magnitude
/// gives at most one.
proof fn lemma_quotient_in_range(w: int, n: int)
    requires
        n > 0,
        abs(w) <= n,
    ensures
        abs(trunc_div(w * SCALE, n)) <= SCALE,
{
    let s = SCALE as int;
    assert(-n * s <= w * s <= n * s) by (nonlinear_arith)
        requires
            -n <= w <= n,
            s > 0,
    ;
    lemma_trunc_div_monotone(w * s, n * s, n);
    lemma_trunc_div_monotone(-n * s, w * s, n);
    lemma_trunc_div_cancel(s, n);
    assert(s * n == n * s) by (nonlinear_arith);
    assert(-n * s == -(n * s)) by (nonlinear_arith);
    lemma_trunc_div_neg(n * s, n);
}

/// The dot product of a vector with itself is never negative.
pub proof fn lemma_dot_self_nonneg(v: Vector3D)
    ensures
        v.spec_dot(v).raw() >= 0,
{
    assert(v.x.raw() * v.x.raw() >= 0) by (nonlinear_arith);
    assert(v.y.raw() * v.y.raw() >= 0) by (nonlinear_arith);
    assert(v.z.raw() * v.z.raw() >= 0) by (nonlinear_arith);
    let n = v.spec_exact_dot(v);
    assert(n / (SCALE as int) >= 0) by (nonlinear_arith)
        requires
            n >= 0,
            SCALE > 0,
    ;
}

impl Vector3D {
    /// The exact sum of the squared raw components.
    fn square_sum(&self) -> (sum: u128)
        ensures
            sum == self.spec_square_sum(),
    {
        square_u128(self.x.magnitude()) + square_u128(self.y.magnitude()) + square_u128(self.z.magnitude())
    }

    /// The largest absolute raw component.
    fn largest(&self) -> (m: i64)
        ensures
            m == self.spec_largest(),
            0 <= m <= RAW_MAX,
    {
        larger(self.x.magnitude(), larger(self.y.magnitude(), self.z.magnitude()))
    }

    /// The whole factor by which the vector is stretched before it is
    /// normalized.
    pub fn stretch(&self) -> (k: i64)
        ensures
            k == self.spec_stretch(),
            1 <= k <= SCALE,
    {
        let m = self.largest();
        if m == 0 || m >= SCALE {
            1
        } else {
            let k = (SCALE + m - 1) / m;
            assert(1 <= k <= SCALE) by (nonlinear_arith)
                requires
                    k as int == (SCALE + m - 1) / (m as int),
                    0 < m < SCALE,
            ;
            k
        }
    }

    /// The vector times its stretch factor.
    pub fn stretched(&self) -> (w: Vector3D)
        ensures
            w == self.spec_stretched(),
    {
        let k = self.stretch();
        Vector3D { x: self.x.times(k), y: self.y.times(k), z: self.z.times(k) }
    }
}

impl VectorOperations for Vector3D {
    open spec fn spec_inner_product(&self, other: &Vector3D) -> Scalar {
        self.spec_dot(*other)
    }

    open spec fn spec_length(&self) -> Scalar {
        self.spec_norm()
    }

    open spec fn spec_unit_vector(&self) -> Vector3D {
        self.spec_unit()
    }

    open spec fn spec_project(&self, other: &Vector3D) -> Vector3D {
        self.spec_projection(*other)
    }

    fn inner_product(&self, other: &Vector3D) -> (r: Scalar) {
        let first = wide_product(&self.x, &other.x) + wide_product(&self.y, &other.y);
        let (negative, magnitude) = signed_sum(first, wide_product(&self.z, &other.z));
        Scalar::rounded(negative, magnitude)
    }

    fn norm(&self) -> (r: Scalar) {
        Scalar::from_u128(int_sqrt_u128(self.square_sum()))
    }

    fn normalize(&mut self) -> (r: Result<(), GeometryError>)
        ensures
            r is Err <==> *old(self) == Vector3D::spec_zeros(),
            r is Ok ==> SCALE - 4 <= final(self).spec_norm().raw() <= SCALE + 2,
    {
        match self.unit_vector() {
            Ok(unit) => {
                *self = unit;
                Ok(())
            },
            Err(e) => Err(e),
        }
    }

    fn unit_vector(&self) -> (r: Result<Vector3D, GeometryError>)
        ensures
            r is Err <==> *self == Vector3D::spec_zeros(),
            r matches Ok(u) ==> abs(u.x.raw()) <= SCALE && abs(u.y.raw()) <= SCALE && abs(u.z.raw())
                <= SCALE,
            r matches Ok(u) ==> SCALE - 4 <= u.spec_norm().raw() <= SCALE + 2,
    {
        proof {
            use_type_invariant(&self.x);
            use_type_invariant(&self.y);
            use_type_invariant(&self.z);
            Vector3D::lemma_norm_and_largest(*self);
        }
        if self.largest() == 0 {
            Err(GeometryError::ZeroNorm)
        } else {
            proof {
                Vector3D::lemma_stretched_is_long(*self);
                Vector3D::lemma_unit_in_range(*self);
                crate::accuracy::lemma_unit_vector_norm(*self);
            }
            let w = self.stretched();
            let n: u128 = int_sqrt_u128(w.square_sum());
            Ok(Vector3D { x: divided_by_wide(&w.x, n), y: divided_by_wide(&w.y, n), z: divided_by_wide(&w.z, n) })
        }
    }

    fn project(&self, other: &Vector3D) -> (r: Result<Vector3D, GeometryError>) {
        proof {
            use_type_invariant(&other.x); use_type_invariant(&other.y); use_type_invariant(&other.z);
            Vector3D::lemma_norm_and_largest(*other);
        }
        if other.largest() == 0 {
            Err(GeometryError::ZeroNorm)
        } else {
            proof {
                Vector3D::lemma_stretched_is_long(*other);
                Vector3D::lemma_long_dot(other.spec_stretched());
            }
            let w = other.stretched();
            Ok((w * self.inner_product(&w)) / w.inner_product(&w))
        }
    }
}

impl Vector3D {
    /// The norm of a valid vector is at least its largest component, so it
    /// is zero for the zero vector only.
    pub proof fn lemma_norm_and_largest(v: Vector3D)
        requires
            v.wf(),
        ensures
            v.spec_norm().raw() >= v.spec_largest(),
            int_sqrt(v.spec_square_sum()) >= v.spec_largest(),
            v.spec_norm().raw() == 0 <==> v.spec_largest() == 0,
            v.spec_largest() == 0 <==> v == Vector3D::spec_zeros(),
    {
        let m = v.spec_largest();
        assert(v.x.raw() * v.x.raw() >= 0) by (nonlinear_arith);
        assert(v.y.raw() * v.y.raw() >= 0) by (nonlinear_arith);
        assert(v.z.raw() * v.z.raw() >= 0) by (nonlinear_arith);
        assert(v.x.raw() * v.x.raw() == abs(v.x.raw()) * abs(v.x.raw())) by (nonlinear_arith);
        assert(v.y.raw() * v.y.raw() == abs(v.y.raw()) * abs(v.y.raw())) by (nonlinear_arith);
        assert(v.z.raw() * v.z.raw() == abs(v.z.raw()) * abs(v.z.raw())) by (nonlinear_arith);
        assert(m * m <= v.spec_square_sum());
        assert(m * m >= 0) by (nonlinear_arith);
        lemma_int_sqrt_monotone(m * m, v.spec_square_sum());
        lemma_int_sqrt_of_square(m);
        if m == 0 {
            assert(v.x.raw() == 0);
            assert(v.y.raw() == 0);
            assert(v.z.raw() == 0);
            assert(v.spec_square_sum() == 0) by (nonlinear_arith)
                requires
                    v.x.raw() == 0,
                    v.y.raw() == 0,
                    v.z.raw() == 0,
                    v.spec_square_sum() == v.x.raw() * v.x.raw() + v.y.raw() * v.y.raw() + v.z.raw() * v.z.raw(),
            ;
            lemma_int_sqrt_of_square(0);
            crate::scalar::lemma_raw_injective(v.x, Scalar::spec_zero());
            crate::scalar::lemma_raw_injective(v.y, Scalar::spec_zero());
            crate::scalar::lemma_raw_injective(v.z, Scalar::spec_zero());
        }
    }

    /// The stretched vector of a valid vector that is not zero has a
    /// largest component, and so a norm, of at least one; stretching is
    /// exact.
    pub proof fn lemma_stretched_is_long(v: Vector3D)
        requires
            v.wf(),
            v.spec_largest() > 0,
        ensures
            v.spec_stretched().wf(),
            v.spec_stretched().x.raw() == v.x.raw() * v.spec_stretch(),
            v.spec_stretched().y.raw() == v.y.raw() * v.spec_stretch(),
            v.spec_stretched().z.raw() == v.z.raw() * v.spec_stretch(),
            SCALE <= v.spec_stretched().spec_largest() <= RAW_MAX,
            v.spec_stretched().spec_largest() <= spec_larger(v.spec_largest(), 2 * SCALE),
            v.spec_stretched().spec_norm().raw() >= SCALE,
            int_sqrt(v.spec_stretched().spec_square_sum()) >= SCALE,
            v.spec_stretch() >= 1,
    {
        let m = v.spec_largest();
        let k = v.spec_stretch();
        if m < SCALE {
            assert(SCALE <= m * k < SCALE + m) by (nonlinear_arith)
                requires
                    k == (SCALE + m - 1) / m,
                    0 < m < SCALE,
            ;
            assert(k >= 1) by (nonlinear_arith)
                requires
                    SCALE <= m * k,
                    0 < m < SCALE,
            ;
        }
        lemma_stretched_component(v.x.raw(), m, k);
        lemma_stretched_component(v.y.raw(), m, k);
        lemma_stretched_component(v.z.raw(), m, k);
        Vector3D::lemma_norm_and_largest(v.spec_stretched());
    }

    /// A valid vector with a component of at least one has a dot product
    /// with itself of at least one.
    pub proof fn lemma_long_dot(w: Vector3D)
        requires
            w.wf(),
            w.spec_largest() >= SCALE,
        ensures
            w.spec_dot(w).raw() >= SCALE,
    {
        let s = SCALE as int;
        let m = w.spec_largest();
        assert(w.x.raw() * w.x.raw() >= 0) by (nonlinear_arith);
        assert(w.y.raw() * w.y.raw() >= 0) by (nonlinear_arith);
        assert(w.z.raw() * w.z.raw() >= 0) by (nonlinear_arith);
        assert(w.x.raw() * w.x.raw() == abs(w.x.raw()) * abs(w.x.raw())) by (nonlinear_arith);
        assert(w.y.raw() * w.y.raw() == abs(w.y.raw()) * abs(w.y.raw())) by (nonlinear_arith);
        assert(w.z.raw() * w.z.raw() == abs(w.z.raw()) * abs(w.z.raw())) by (nonlinear_arith);
        assert(m * m >= s * s) by (nonlinear_arith)
            requires
                m >= s,
                s > 0,
        ;
        assert(w.spec_exact_dot(w) >= s * s);
        lemma_trunc_div_monotone(s * s, w.spec_exact_dot(w), s);
        lemma_trunc_div_cancel(s, s);
    }

    /// Every component of the unit vector of a valid vector that is not
    /// zero lies between minus one and one.
    pub proof fn lemma_unit_in_range(v: Vector3D)
        requires
            v.wf(),
            v.spec_largest() > 0,
        ensures
            abs(v.spec_unit().x.raw()) <= SCALE && abs(v.spec_unit().y.raw()) <= SCALE && abs(v.spec_unit().z.raw()) <= SCALE,
    {
        Vector3D::lemma_stretched_is_long(v);
        let w = v.spec_stretched();
        Vector3D::lemma_norm_and_largest(w);
        let n = int_sqrt(w.spec_square_sum());
        lemma_quotient_in_range(w.x.raw(), n);
        lemma_quotient_in_range(w.y.raw(), n);
        lemma_quotient_in_range(w.z.raw(), n);
    }
}

impl Default for Vector3D {
    fn default() -> (v: Vector3D)
        ensures
            v == Vector3D::spec_zeros(),
    {
        Vector3D { x: Scalar::zero(), y: Scalar::zero(), z: Scalar::zero() }
    }
}

impl core::ops::Add for Vector3D {
    type Output = Vector3D;

    fn add(self, rhs: Vector3D) -> (r: Vector3D) {
        Vector3D { x: self.x + rhs.x, y: self.y + rhs.y, z: self.z + rhs.z }
    }
}

impl vstd::std_specs::ops::AddSpecImpl for Vector3D {
    open spec fn obeys_add_spec() -> bool {
        true
    }

    open spec fn add_req(self, rhs: Vector3D) -> bool {
        true
    }

    open spec fn add_spec(self, rhs: Vector3D) -> Vector3D {
        self.spec_add(rhs)
    }
}

impl core::ops::Sub for Vector3D {
    type Output = Vector3D;

    fn sub(self, rhs: Vector3D) -> (r: Vector3D) {
        Vector3D { x: self.x - rhs.x, y: self.y - rhs.y, z: self.z - rhs.z }
    }
}

impl vstd::std_specs::ops::SubSpecImpl for Vector3D {
    open spec fn obeys_sub_spec() -> bool {
        true
    }

    open spec fn sub_req(self, rhs: Vector3D) -> bool {
        true
    }

    open spec fn sub_spec(self, rhs: Vector3D) -> Vector3D {
        self.spec_sub(rhs)
    }
}

impl core::ops::Mul for Vector3D {
    type Output = Vector3D;

    fn mul(self, rhs: Vector3D) -> (r: Vector3D) {
        Vector3D { x: self.x * rhs.x, y: self.y * rhs.y, z: self.z * rhs.z }
    }
}

impl vstd::std_specs::ops::MulSpecImpl for Vector3D {
    open spec fn obeys_mul_spec() -> bool {
        true
    }

    open spec fn mul_req(self, rhs: Vector3D) -> bool {
        true
    }

    open spec fn mul_spec(self, rhs: Vector3D) -> Vector3D {
        self.spec_mul(rhs)
    }
}

impl core::ops::Mul<Scalar> for Vector3D {
    type Output = Vector3D;

    fn mul(self, rhs: Scalar) -> (r: Vector3D) {
        Vector3D { x: self.x * rhs, y: self.y * rhs, z: self.z * rhs }
    }
}

impl vstd::std_specs::ops::MulSpecImpl<Scalar> for Vector3D {
    open spec fn obeys_mul_spec() -> bool {
        true
    }

    open spec fn mul_req(self, rhs: Scalar) -> bool {
        true
    }

    open spec fn mul_spec(self, rhs: Scalar) -> Vector3D {
        self.spec_scale(rhs)
    }
}

impl core::ops::Div<Scalar> for Vector3D {
    type Output = Vector3D;

    fn div(self, rhs: Scalar) -> (r: Vector3D) {
        Vector3D { x: self.x / rhs, y: self.y / rhs, z: self.z / rhs }
    }
}

impl vstd::std_specs::ops::DivSpecImpl<Scalar> for Vector3D {
    open spec fn obeys_div_spec() -> bool {
        true
    }

    open spec fn div_req(self, rhs: Scalar) -> bool {
        rhs.raw() != 0
    }

    open spec fn div_spec(self, rhs: Scalar) -> Vector3D {
        self.spec_div(rhs)
    }
}

/// A vector of two scalars.
#[derive(Clone, Copy, Debug, PartialEq, Eq, Structural)]
pub struct Vector2D {
    pub x: Scalar,
    pub y: Scalar,
}

impl Vector2D {
    /// Validity: every component is a valid scalar.
    pub open spec fn wf(self) -> bool {
        self.x.wf() && self.y.wf()
    }

    pub open spec fn spec_zeros() -> Vector2D {
        Vector2D { x: Scalar::spec_zero(), y: Scalar::spec_zero() }
    }

    pub open spec fn spec_ones() -> Vector2D {
        Vector2D { x: Scalar::spec_one(), y: Scalar::spec_one() }
    }

    /// Component-wise sum.
    pub open spec fn spec_add(self, rhs: Vector2D) -> Vector2D {
        Vector2D { x: self.x.spec_add(rhs.x), y: self.y.spec_add(rhs.y) }
    }

    /// Component-wise difference.
    pub open spec fn spec_sub(self, rhs: Vector2D) -> Vector2D {
        Vector2D { x: self.x.spec_sub(rhs.x), y: self.y.spec_sub(rhs.y) }
    }

    /// Component-wise product.
    pub open spec fn spec_mul(self, rhs: Vector2D) -> Vector2D {
        Vector2D { x: self.x.spec_mul(rhs.x), y: self.y.spec_mul(rhs.y) }
    }

    /// Every component multiplied by `k`.
    pub open spec fn spec_scale(self, k: Scalar) -> Vector2D {
        Vector2D { x: self.x.spec_mul(k), y: self.y.spec_mul(k) }
    }

    /// Every component divided by `k`.
    pub open spec fn spec_div(self, k: Scalar) -> Vector2D {
        Vector2D { x: self.x.spec_div(k), y: self.y.spec_div(k) }
    }

    /// The exact dot product of the raw components, in squared units.
    pub open spec fn spec_exact_dot(self, rhs: Vector2D) -> int {
        self.x.raw() * rhs.x.raw() + self.y.raw() * rhs.y.raw()
    }

    /// Dot product: `x*x' + y*y'`, formed exactly and rounded once.
    pub open spec fn spec_dot(self, rhs: Vector2D) -> Scalar {
        Scalar::spec_from_raw(trunc_div(self.spec_exact_dot(rhs), SCALE as int))
    }

    /// The exact sum of the squared raw components.
    pub open spec fn spec_square_sum(self) -> int {
        self.x.raw() * self.x.raw() + self.y.raw() * self.y.raw()
    }

    /// Euclidean norm: the square root, rounded down to a billionth, of the
    /// exact sum of the squared components.
    pub open spec fn spec_norm(self) -> Scalar {
        Scalar::spec_from_raw(int_sqrt(self.spec_square_sum()))
    }

    /// The largest absolute raw component.
    pub open spec fn spec_largest(self) -> int {
        spec_larger(abs(self.x.raw()), abs(self.y.raw()))
    }

    /// The whole factor by which a vector is stretched before it is
    /// normalized: one for a vector with a component of at least one (and
    /// for the zero vector), else the least factor that brings the largest
    /// component to one or more.
    pub open spec fn spec_stretch(self) -> int {
        let m = self.spec_largest();
        if m == 0 || m >= SCALE {
            1
        } else {
            (SCALE + m - 1) / m
        }
    }

    /// The vector times its stretch factor, which is exact.
    pub open spec fn spec_stretched(self) -> Vector2D {
        let k = self.spec_stretch();
        Vector2D { x: self.x.spec_times(k), y: self.y.spec_times(k) }
    }

    /// The vector divided by its own norm. The division is made on the
    /// stretched vector, which has the same direction, so that a short
    /// vector loses nothing to rounding.
    pub open spec fn spec_unit(self) -> Vector2D {
        let w = self.spec_stretched();
        let n = int_sqrt(w.spec_square_sum());
        Vector2D {
            x: Scalar::spec_from_raw(trunc_div(w.x.raw() * SCALE, n)),
            y: Scalar::spec_from_raw(trunc_div(w.y.raw() * SCALE, n)),
        }
    }

    /// The projection onto `rhs`: `w * dot(self, w) / dot(w, w)`, where `w`
    /// is `rhs` stretched, which has the same direction.
    pub open spec fn spec_projection(self, rhs: Vector2D) -> Vector2D {
        let w = rhs.spec_stretched();
        w.spec_scale(self.spec_dot(w)).spec_div(w.spec_dot(w))
    }

    /// Whether every component lies in `[lower, upper)`.
    pub open spec fn spec_within(self, lower: Scalar, upper: Scalar) -> bool {
        &&& lower.raw() <= self.x.raw() < upper.raw()
        &&& lower.raw() <= self.y.raw() < upper.raw()
    }

    /// The vector with every component at its default, zero.
    pub fn new() -> (v: Vector2D)
        ensures
            v == Vector2D::spec_zeros(),
    {
        Vector2D { x: Scalar::default(), y: Scalar::default() }
    }

    pub fn zeros() -> (v: Vector2D)
        ensures
            v == Vector2D::spec_zeros(),
    {
        Vector2D { x: Scalar::zero(), y: Scalar::zero() }
    }

    pub fn ones() -> (v: Vector2D)
        ensures
            v == Vector2D::spec_ones(),
    {
        Vector2D { x: Scalar::one(), y: Scalar::one() }
    }

    /// A vector whose components are drawn from `[lower_bound, upper_bound)`
    /// with the thread's generator. The interval must not be empty.
    pub fn random_uniform(
        lower_bound: Scalar,
        upper_bound: Scalar,
        rng: &mut rand::rngs::ThreadRng,
    ) -> (v: Vector2D)
        requires
            lower_bound.raw() < upper_bound.raw(),
        ensures
            v.spec_within(lower_bound, upper_bound),
    {
        Vector2D {
            x: thread_uniform_between(rng, lower_bound, upper_bound),
            y: thread_uniform_between(rng, lower_bound, upper_bound),
        }
    }

    /// A vector whose components are `lower + u * (upper - lower)` for
    /// fractions `u` drawn from `[0, 1)` with the fast generator. The
    /// interval must not be empty.
    pub fn fast_random_uniform(
        lower_bound: Scalar,
        upper_bound: Scalar,
        rng: &mut fastrand::Rng,
    ) -> (v: Vector2D)
        requires
            lower_bound.raw() < upper_bound.raw(),
        ensures
            v.spec_within(lower_bound, upper_bound),
            exists|ux: Scalar, uy: Scalar|
                {
                    &&& is_unit_fraction(ux) && is_unit_fraction(uy)
                    &&& v == Vector2D {
                        x: spec_interpolate(lower_bound, upper_bound, ux),
                        y: spec_interpolate(lower_bound, upper_bound, uy),
                    }
                },
    {
        let ux = generate_unit_fraction(rng);
        let uy = generate_unit_fraction(rng);
        Vector2D {
            x: interpolate(lower_bound, upper_bound, ux),
            y: interpolate(lower_bound, upper_bound, uy),
        }
    }
}

impl Vector2D {
    /// The exact sum of the squared raw components.
    fn square_sum(&self) -> (sum: u128)
        ensures
            sum == self.spec_square_sum(),
    {
        square_u128(self.x.magnitude()) + square_u128(self.y.magnitude())
    }

    /// The largest absolute raw component.
    fn largest(&self) -> (m: i64)
        ensures
            m == self.spec_largest(),
            0 <= m <= RAW_MAX,
    {
        larger(self.x.magnitude(), self.y.magnitude())
    }

    /// The whole factor by which the vector is stretched before it is
    /// normalized.
    pub fn stretch(&self) -> (k: i64)
        ensures
            k == self.spec_stretch(),
            1 <= k <= SCALE,
    {
        let m = self.largest();
        if m == 0 || m >= SCALE {
            1
        } else {
            let k = (SCALE + m - 1) / m;
            assert(1 <= k <= SCALE) by (nonlinear_arith)
                requires
                    k as int == (SCALE + m - 1) / (m as int),
                    0 < m < SCALE,
            ;
            k
        }
    }

    /// The vector times its stretch factor.
    pub fn stretched(&self) -> (w: Vector2D)
        ensures
            w == self.spec_stretched(),
    {
        let k = self.stretch();
        Vector2D { x: self.x.times(k), y: self.y.times(k) }
    }
}

impl VectorOperations for Vector2D {
    open spec fn spec_inner_product(&self, other: &Vector2D) -> Scalar {
        self.spec_dot(*other)
    }

    open spec fn spec_length(&self) -> Scalar {
        self.spec_norm()
    }

    open spec fn spec_unit_vector(&self) -> Vector2D {
        self.spec_unit()
    }

    open spec fn spec_project(&self, other: &Vector2D) -> Vector2D {
        self.spec_projection(*other)
    }

    fn inner_product(&self, other: &Vector2D) -> (r: Scalar) {
        let first = wide_product(&self.x, &other.x) + wide_product(&self.y, &other.y);
        let (negative, magnitude) = signed_sum(first, 0);
        Scalar::rounded(negative, magnitude)
    }

    fn norm(&self) -> (r: Scalar) {
        Scalar::from_u128(int_sqrt_u128(self.square_sum()))
    }

    fn normalize(&mut self) -> (r: Result<(), GeometryError>) {
        match self.unit_vector() {
            Ok(unit) => {
                *self = unit;
                Ok(())
            },
            Err(e) => Err(e),
        }
    }

    fn unit_vector(&self) -> (r: Result<Vector2D, GeometryError>) {
        proof {
            use_type_invariant(&self.x);
            use_type_invariant(&self.y);
            Vector2D::lemma_norm_and_largest(*self);
        }
        if self.largest() == 0 {
            Err(GeometryError::ZeroNorm)
        } else {
            proof {
                Vector2D::lemma_stretched_is_long(*self);
            }
            let w = self.stretched();
            let n: u128 = int_sqrt_u128(w.square_sum());
            Ok(Vector2D { x: divided_by_wide(&w.x, n), y: divided_by_wide(&w.y, n) })
        }
    }

    fn project(&self, other: &Vector2D) -> (r: Result<Vector2D, GeometryError>) {
        proof {
            use_type_invariant(&other.x); use_type_invariant(&other.y);
            Vector2D::lemma_norm_and_largest(*other);
        }
        if other.largest() == 0 {
            Err(GeometryError::ZeroNorm)
        } else {
            proof {
                Vector2D::lemma_stretched_is_long(*other);
                Vector2D::lemma_long_dot(other.spec_stretched());
            }
            let w = other.stretched();
            Ok((w * self.inner_product(&w)) / w.inner_product(&w))
        }
    }
}

impl Vector2D {
    /// The norm of a valid vector is at least its largest component, so it
    /// is zero for the zero vector only.
    pub proof fn lemma_norm_and_largest(v: Vector2D)
        requires
            v.wf(),
        ensures
            v.spec_norm().raw() >= v.spec_largest(),
            int_sqrt(v.spec_square_sum()) >= v.spec_largest(),
            v.spec_norm().raw() == 0 <==> v.spec_largest() == 0,
            v.spec_largest() == 0 <==> v == Vector2D::spec_zeros(),
    {
        let m = v.spec_largest();
        assert(v.x.raw() * v.x.raw() >= 0) by (nonlinear_arith);
        assert(v.y.raw() * v.y.raw() >= 0) by (nonlinear_arith);
        assert(v.x.raw() * v.x.raw() == abs(v.x.raw()) * abs(v.x.raw())) by (nonlinear_arith);
        assert(v.y.raw() * v.y.raw() == abs(v.y.raw()) * abs(v.y.raw())) by (nonlinear_arith);
        assert(m * m <= v.spec_square_sum());
        assert(m * m >= 0) by (nonlinear_arith);
        lemma_int_sqrt_monotone(m * m, v.spec_square_sum());
        lemma_int_sqrt_of_square(m);
        if m == 0 {
            assert(v.x.raw() == 0);
            assert(v.y.raw() == 0);
            assert(v.spec_square_sum() == 0) by (nonlinear_arith)
                requires
                    v.x.raw() == 0,
                    v.y.raw() == 0,
                    v.spec_square_sum() == v.x.raw() * v.x.raw() + v.y.raw() * v.y.raw(),
            ;
            lemma_int_sqrt_of_square(0);
            crate::scalar::lemma_raw_injective(v.x, Scalar::spec_zero());
            crate::scalar::lemma_raw_injective(v.y, Scalar::spec_zero());
        }
    }

    /// The stretched vector of a valid vector that is not zero has a
    /// largest component, and so a norm, of at least one; stretching is
    /// exact.
    pub proof fn lemma_stretched_is_long(v: Vector2D)
        requires
            v.wf(),
            v.spec_largest() > 0,
        ensures
            v.spec_stretched().wf(),
            v.spec_stretched().x.raw() == v.x.raw() * v.spec_stretch(),
            v.spec_stretched().y.raw() == v.y.raw() * v.spec_stretch(),
            SCALE <= v.spec_stretched().spec_largest() <= RAW_MAX,
            v.spec_stretched().spec_largest() <= spec_larger(v.spec_largest(), 2 * SCALE),
            v.spec_stretched().spec_norm().raw() >= SCALE,
            int_sqrt(v.spec_stretched().spec_square_sum()) >= SCALE,
            v.spec_stretch() >= 1,
    {
        let m = v.spec_largest();
        let k = v.spec_stretch();
        if m < SCALE {
            assert(SCALE <= m * k < SCALE + m) by (nonlinear_arith)
                requires
                    k == (SCALE + m - 1) / m,
                    0 < m < SCALE,
            ;
            assert(k >= 1) by (nonlinear_arith)
                requires
                    SCALE <= m * k,
                    0 < m < SCALE,
            ;
        }
        lemma_stretched_component(v.x.raw(), m, k);
        lemma_stretched_component(v.y.raw(), m, k);
        Vector2D::lemma_norm_and_largest(v.spec_stretched());
    }

    /// A valid vector with a component of at least one has a dot product
    /// with itself of at least one.
    pub proof fn lemma_long_dot(w: Vector2D)
        requires
            w.wf(),
            w.spec_largest() >= SCALE,
        ensures
            w.spec_dot(w).raw() >= SCALE,
    {
        let s = SCALE as int;
        let m = w.spec_largest();
        assert(w.x.raw() * w.x.raw() >= 0) by (nonlinear_arith);
        assert(w.y.raw() * w.y.raw() >= 0) by (nonlinear_arith);
        assert(w.x.raw() * w.x.raw() == abs(w.x.raw()) * abs(w.x.raw())) by (nonlinear_arith);
        assert(w.y.raw() * w.y.raw() == abs(w.y.raw()) * abs(w.y.raw())) by (nonlinear_arith);
        assert(m * m >= s * s) by (nonlinear_arith)
            requires
                m >= s,
                s > 0,
        ;
        assert(w.spec_exact_dot(w) >= s * s);
        lemma_trunc_div_monotone(s * s, w.spec_exact_dot(w), s);
        lemma_trunc_div_cancel(s, s);
    }

    /// Every component of the unit vector of a valid vector that is not
    /// zero lies between minus one and one.
    pub proof fn lemma_unit_in_range(v: Vector2D)
        requires
            v.wf(),
            v.spec_largest() > 0,
        ensures
            abs(v.spec_unit().x.raw()) <= SCALE && abs(v.spec_unit().y.raw()) <= SCALE,
    {
        Vector2D::lemma_stretched_is_long(v);
        let w = v.spec_stretched();
        Vector2D::lemma_norm_and_largest(w);
        let n = int_sqrt(w.spec_square_sum());
        lemma_quotient_in_range(w.x.raw(), n);
        lemma_quotient_in_range(w.y.raw(), n);
    }
}

impl Default for Vector2D {
    fn default() -> (v: Vector2D)
        ensures
            v == Vector2D::spec_zeros(),
    {
        Vector2D { x: Scalar::default(), y: Scalar::default() }
    }
}

impl core::ops::Add for Vector2D {
    type Output = Vector2D;

    fn add(self, rhs: Vector2D) -> (r: Vector2D) {
        Vector2D { x: self.x + rhs.x, y: self.y + rhs.y }
    }
}

impl vstd::std_specs::ops::AddSpecImpl for Vector2D {
    open spec fn obeys_add_spec() -> bool {
        true
    }

    open spec fn add_req(self, rhs: Vector2D) -> bool {
        true
    }

    open spec fn add_spec(self, rhs: Vector2D) -> Vector2D {
        self.spec_add(rhs)
    }
}

impl core::ops::Sub for Vector2D {
    type Output = Vector2D;

    fn sub(self, rhs: Vector2D) -> (r: Vector2D) {
        Vector2D { x: self.x - rhs.x, y: self.y - rhs.y }
    }
}

impl vstd::std_specs::ops::SubSpecImpl for Vector2D {
    open spec fn obeys_sub_spec() -> bool {
        true
    }

    open spec fn sub_req(self, rhs: Vector2D) -> bool {
        true
    }

    open spec fn sub_spec(self, rhs: Vector2D) -> Vector2D {
        self.spec_sub(rhs)
    }
}

impl core::ops::Mul for Vector2D {
    type Output = Vector2D;

    fn mul(self, rhs: Vector2D) -> (r: Vector2D) {
        Vector2D { x: self.x * rhs.x, y: self.y * rhs.y }
    }
}

impl vstd::std_specs::ops::MulSpecImpl for Vector2D {
    open spec fn obeys_mul_spec() -> bool {
        true
    }

    open spec fn mul_req(self, rhs: Vector2D) -> bool {
        true
    }

    open spec fn mul_spec(self, rhs: Vector2D) -> Vector2D {
        self.spec_mul(rhs)
    }
}

impl core::ops::Mul<Scalar> for Vector2D {
    type Output = Vector2D;

    fn mul(self, rhs: Scalar) -> (r: Vector2D) {
        Vector2D { x: self.x * rhs, y: self.y * rhs }
    }
}

impl vstd::std_specs::ops::MulSpecImpl<Scalar> for Vector2D {
    open spec fn obeys_mul_spec() -> bool {
        true
    }

    open spec fn mul_req(self, rhs: Scalar) -> bool {
        true
    }

    open spec fn mul_spec(self, rhs: Scalar) -> Vector2D {
        self.spec_scale(rhs)
    }
}

impl core::ops::Div<Scalar> for Vector2D {
    type Output = Vector2D;

    fn div(self, rhs: Scalar) -> (r: Vector2D) {
        Vector2D { x: self.x / rhs, y: self.y / rhs }
    }
}

impl vstd::std_specs::ops::DivSpecImpl<Scalar> for Vector2D {
    open spec fn obeys_div_spec() -> bool {
        true
    }

    open spec fn div_req(self, rhs: Scalar) -> bool {
        rhs.raw() != 0
    }

    open spec fn div_spec(self, rhs: Scalar) -> Vector2D {
        self.spec_div(rhs)
    }
}

} // verus!
