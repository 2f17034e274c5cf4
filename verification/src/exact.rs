//! The roots of the ray-sphere quadratic from exact integer coefficients,
//! for spheres and rays of ordinary size.

use vstd::prelude::*;
use crate::fixed::{abs, int_sqrt, int_sqrt_u128, trunc_div, trunc_div_i128, SCALE};
use crate::scalar::{lemma_raw_of_from_raw, Scalar};
use crate::vector::Vector3D;

verus! {

broadcast use lemma_raw_of_from_raw;

/// The largest coordinate of a position, and the largest radius, of ordinary
/// size: one thousand.
pub const POSITION_LIMIT: i64 = 1_000_000_000_000;

/// The largest component of a direction of ordinary size: ten.
pub const DIRECTION_LIMIT: i64 = 10_000_000_000;

/// Whether every component of `v` is at most `limit` in absolute value.
pub open spec fn spec_bounded(v: Vector3D, limit: int) -> bool {
    abs(v.x.raw()) <= limit && abs(v.y.raw()) <= limit && abs(v.z.raw()) <= limit
}

/// Whether a sphere and a ray are of ordinary size: on them the roots are
/// computed from exact coefficients.
pub open spec fn spec_ordinary(
    origin: Vector3D,
    direction: Vector3D,
    center: Vector3D,
    radius: Scalar,
) -> bool {
    &&& spec_bounded(origin, POSITION_LIMIT as int)
    &&& spec_bounded(center, POSITION_LIMIT as int)
    &&& spec_bounded(direction, DIRECTION_LIMIT as int)
    &&& 0 < radius.raw() <= POSITION_LIMIT
}

/// The exact coefficient `a = d.d`, in squared units.
pub open spec fn spec_exact_a(d: Vector3D) -> int {
    d.spec_exact_dot(d)
}

/// The exact coefficient `half_b = (origin - center).d`, in squared units.
pub open spec fn spec_exact_b(origin: Vector3D, d: Vector3D, center: Vector3D) -> int {
    (origin.x.raw() - center.x.raw()) * d.x.raw() + (origin.y.raw() - center.y.raw()) * d.y.raw()
        + (origin.z.raw() - center.z.raw()) * d.z.raw()
}

/// The exact coefficient `c = |origin - center|^2 - radius^2`, in squared
/// units.
pub open spec fn spec_exact_c(origin: Vector3D, center: Vector3D, radius: Scalar) -> int {
    (origin.x.raw() - center.x.raw()) * (origin.x.raw() - center.x.raw()) + (origin.y.raw()
        - center.y.raw()) * (origin.y.raw() - center.y.raw()) + (origin.z.raw() - center.z.raw())
        * (origin.z.raw() - center.z.raw()) - radius.raw() * radius.raw()
}

/// The discriminant `half_b^2 - a c` of the exact coefficients, rounded
/// down once to squared units.
pub open spec fn spec_exact_discriminant(
    origin: Vector3D,
    d: Vector3D,
    center: Vector3D,
    radius: Scalar,
) -> int {
    let a = spec_exact_a(d);
    let b = spec_exact_b(origin, d, center);
    let c = spec_exact_c(origin, center, radius);
    (b * b - a * c) / (SCALE * SCALE)
}

/// The two roots `(-half_b -+ sqrt(discriminant)) / a` of the quadratic with
/// exact coefficients, each rounded once; none where the direction is the
/// zero vector or the discriminant is negative.
pub open spec fn spec_exact_roots(
    origin: Vector3D,
    d: Vector3D,
    center: Vector3D,
    radius: Scalar,
) -> Option<(Scalar, Scalar)> {
    let a = spec_exact_a(d);
    let b = spec_exact_b(origin, d, center);
    let q = spec_exact_discriminant(origin, d, center, radius);
    if a == 0 || q < 0 {
        None
    } else {
        let root = int_sqrt(q);
        Some(
            (
                Scalar::spec_from_raw(trunc_div((-b - root * SCALE) * SCALE, a)),
                Scalar::spec_from_raw(trunc_div((-b + root * SCALE) * SCALE, a)),
            ),
        )
    }
}

/// The smaller exact root is not larger than the larger one.
pub proof fn lemma_exact_roots_ordered(
    origin: Vector3D,
    d: Vector3D,
    center: Vector3D,
    radius: Scalar,
)
    ensures
        spec_exact_roots(origin, d, center, radius) matches Some(roots) ==> roots.0.raw()
            <= roots.1.raw(),
{
    let a = spec_exact_a(d);
    let b = spec_exact_b(origin, d, center);
    let q = spec_exact_discriminant(origin, d, center, radius);
    if a != 0 && q >= 0 {
        assert(d.x.raw() * d.x.raw() >= 0 && d.y.raw() * d.y.raw() >= 0 && d.z.raw() * d.z.raw()
            >= 0) by (nonlinear_arith);
        crate::fixed::lemma_int_sqrt_exists(q);
        let root = int_sqrt(q);
        assert((-b - root * SCALE) * SCALE <= (-b + root * SCALE) * SCALE) by (nonlinear_arith)
            requires
                root >= 0,
                SCALE > 0,
        ;
        crate::fixed::lemma_trunc_div_monotone(
            (-b - root * SCALE) * SCALE,
            (-b + root * SCALE) * SCALE,
            a,
        );
    }
}

/// Whether every component is at most `limit` in absolute value.
fn bounded(v: &Vector3D, limit: i64) -> (r: bool)
    requires
        0 <= limit,
    ensures
        r == spec_bounded(*v, limit as int),
{
    let x = v.x.get_raw();
    let y = v.y.get_raw();
    let z = v.z.get_raw();
    -limit <= x && x <= limit && -limit <= y && y <= limit && -limit <= z && z <= limit
}

/// Whether the sphere and the ray are of ordinary size.
pub fn is_ordinary(origin: &Vector3D, direction: &Vector3D, center: &Vector3D, radius: Scalar) -> (r:
    bool)
    ensures
        r == spec_ordinary(*origin, *direction, *center, radius),
{
    let rr = radius.get_raw();
    bounded(origin, POSITION_LIMIT) && bounded(center, POSITION_LIMIT) && bounded(
        direction,
        DIRECTION_LIMIT,
    ) && 0 < rr && rr <= POSITION_LIMIT
}

/// The product of two bounded numbers.
fn bounded_product(x: i128, y: i128, bx: i128, by: i128) -> (p: i128)
    requires
        -bx <= x <= bx,
        -by <= y <= by,
        0 <= bx <= 1_000_000_000_000_000_000,
        0 <= by <= 1_000_000_000_000_000_000,
    ensures
        p == x * y,
        -(bx * by) <= p <= bx * by,
{
    assert(-(bx * by) <= x * y <= bx * by) by (nonlinear_arith)
        requires
            -bx <= x <= bx,
            -by <= y <= by,
    ;
    assert(bx * by <= 1_000_000_000_000_000_000_000_000_000_000_000_000) by (nonlinear_arith)
        requires
            0 <= bx <= 1_000_000_000_000_000_000,
            0 <= by <= 1_000_000_000_000_000_000,
    ;
    x * y
}

/// Quotient and remainder of a division that rounds down.
fn floor_div(n: i128, d: i128) -> (r: (i128, i128))
    requires
        d > 0,
        n > i128::MIN + d,
    ensures
        r.0 == n / d,
        r.1 == n % d,
        n == r.0 * d + r.1,
        0 <= r.1 < d,
{
    if n >= 0 {
        let q = (n as u128 / d as u128) as i128;
        let m = (n as u128 % d as u128) as i128;
        proof {
            vstd::arithmetic::div_mod::lemma_fundamental_div_mod(n as int, d as int);
            assert(d * (n / d) == (n / d) * d) by (nonlinear_arith);
        }
        (q, m)
    } else {
        let size: u128 = (-n) as u128;
        let q0 = (size / d as u128) as i128;
        let m0 = (size % d as u128) as i128;
        proof {
            vstd::arithmetic::div_mod::lemma_fundamental_div_mod(size as int, d as int);
            assert(d * (size / (d as u128)) == (size / (d as u128)) * d) by (nonlinear_arith);
            assert(q0 <= size) by (nonlinear_arith)
                requires
                    size == q0 * d + m0,
                    d > 0,
                    q0 >= 0,
                    m0 >= 0,
            ;
        }
        if m0 == 0 {
            proof {
                assert((-q0) * d == -(q0 * d)) by (nonlinear_arith);
                vstd::arithmetic::div_mod::lemma_fundamental_div_mod_converse(
                    n as int,
                    d as int,
                    -q0 as int,
                    0,
                );
            }
            (-q0, 0)
        } else {
            proof {
                assert((-q0 - 1) * d == -(q0 * d) - d) by (nonlinear_arith);
                vstd::arithmetic::div_mod::lemma_fundamental_div_mod_converse(
                    n as int,
                    d as int,
                    (-q0 - 1) as int,
                    (d - m0) as int,
                );
            }
            (-q0 - 1, d - m0)
        }
    }
}

/// The quotient by a square, from the three parts of the dividend:
/// `(t1 s^2 + t2 s + t3) / s^2 == t1 + (t2 + t3 / s) / s`.
proof fn lemma_quotient_by_parts(s: int, t1: int, t2: int, t3: int)
    requires
        s > 0,
    ensures
        (t1 * (s * s) + t2 * s + t3) / (s * s) == t1 + (t2 + t3 / s) / s,
{
    let inner = t2 + t3 / s;
    let q = inner / s;
    let r2 = inner % s;
    let r1 = t3 % s;
    vstd::arithmetic::div_mod::lemma_fundamental_div_mod(t3, s);
    vstd::arithmetic::div_mod::lemma_fundamental_div_mod(inner, s);
    vstd::arithmetic::div_mod::lemma_mod_bound(t3, s);
    vstd::arithmetic::div_mod::lemma_mod_bound(inner, s);
    let total = t1 * (s * s) + t2 * s + t3;
    assert(total == (t1 + q) * (s * s) + (r2 * s + r1)) by (nonlinear_arith)
        requires
            total == t1 * (s * s) + t2 * s + t3,
            t3 == s * (t3 / s) + r1,
            inner == s * q + r2,
            inner == t2 + t3 / s,
    ;
    assert(0 <= r2 * s + r1 < s * s) by (nonlinear_arith)
        requires
            0 <= r2 < s,
            0 <= r1 < s,
    ;
    assert(s * s > 0) by (nonlinear_arith)
        requires
            s > 0,
    ;
    vstd::arithmetic::div_mod::lemma_fundamental_div_mod_converse(
        total,
        s * s,
        t1 + q,
        r2 * s + r1,
    );
}

/// The discriminant in three parts: where `a = a1 s + a0`, `b = b1 s + b0`
/// and `c = c1 s + c0`, there
/// `b^2 - a c = (b1^2 - a1 c1) s^2 + (2 b1 b0 - a1 c0 - a0 c1) s + (b0^2 - a0 c0)`.
proof fn lemma_discriminant_parts(
    s: int,
    a1: int,
    a0: int,
    b1: int,
    b0: int,
    c1: int,
    c0: int,
)
    ensures
        (b1 * s + b0) * (b1 * s + b0) - (a1 * s + a0) * (c1 * s + c0) == (b1 * b1 - a1 * c1) * (s
            * s) + (2 * (b1 * b0) - a1 * c0 - a0 * c1) * s + (b0 * b0 - a0 * c0),
{
    let x = b1 * s;
    assert((x + b0) * (x + b0) == x * x + 2 * (x * b0) + b0 * b0) by (nonlinear_arith);
    assert(x * x == (b1 * b1) * (s * s)) by (nonlinear_arith)
        requires
            x == b1 * s,
    ;
    assert(x * b0 == (b1 * b0) * s) by (nonlinear_arith)
        requires
            x == b1 * s,
    ;
    let y = a1 * s;
    let z = c1 * s;
    assert((y + a0) * (z + c0) == y * z + y * c0 + a0 * z + a0 * c0) by (nonlinear_arith);
    assert(y * z == (a1 * c1) * (s * s)) by (nonlinear_arith)
        requires
            y == a1 * s,
            z == c1 * s,
    ;
    assert(y * c0 == (a1 * c0) * s) by (nonlinear_arith)
        requires
            y == a1 * s,
    ;
    assert(a0 * z == (a0 * c1) * s) by (nonlinear_arith)
        requires
            z == c1 * s,
    ;
    assert((b1 * b1 - a1 * c1) * (s * s) == (b1 * b1) * (s * s) - (a1 * c1) * (s * s))
        by (nonlinear_arith);
    assert((2 * (b1 * b0) - a1 * c0 - a0 * c1) * s == 2 * ((b1 * b0) * s) - (a1 * c0) * s - (a0
        * c1) * s) by (nonlinear_arith);
}

/// The roots for exact coefficients, for a sphere and a ray of ordinary
/// size; `d` is the direction that the roots are parameters of.
pub fn exact_roots(origin: &Vector3D, d: &Vector3D, center: &Vector3D, radius: Scalar) -> (r:
    Option<(Scalar, Scalar)>)
    requires
        spec_ordinary(*origin, *d, *center, radius),
    ensures
        r == spec_exact_roots(*origin, *d, *center, radius),
{
    let s: i128 = SCALE as i128;
    let p: i128 = 2_000_000_000_000;
    let l: i128 = DIRECTION_LIMIT as i128;
    let ox: i128 = origin.x.get_raw() as i128 - center.x.get_raw() as i128;
    let oy: i128 = origin.y.get_raw() as i128 - center.y.get_raw() as i128;
    let oz: i128 = origin.z.get_raw() as i128 - center.z.get_raw() as i128;
    let dx: i128 = d.x.get_raw() as i128;
    let dy: i128 = d.y.get_raw() as i128;
    let dz: i128 = d.z.get_raw() as i128;
    let rr: i128 = radius.get_raw() as i128;
    let a: i128 = bounded_product(dx, dx, l, l) + bounded_product(dy, dy, l, l) + bounded_product(
        dz,
        dz,
        l,
        l,
    );
    let b: i128 = bounded_product(ox, dx, p, l) + bounded_product(oy, dy, p, l) + bounded_product(
        oz,
        dz,
        p,
        l,
    );
    let c: i128 = bounded_product(ox, ox, p, p) + bounded_product(oy, oy, p, p) + bounded_product(
        oz,
        oz,
        p,
        p,
    ) - bounded_product(rr, rr, p, p);
    proof {
        assert(dx * dx >= 0 && dy * dy >= 0 && dz * dz >= 0) by (nonlinear_arith);
        assert(l * l == 100_000_000_000_000_000_000 && p * l == 20_000_000_000_000_000_000_000 && p
            * p == 4_000_000_000_000_000_000_000_000) by (nonlinear_arith)
            requires
                l == 10_000_000_000,
                p == 2_000_000_000_000,
        ;
    }
    if a == 0 {
        return None;
    }
    let (a1, a0) = floor_div(a, s);
    let (b1, b0) = floor_div(b, s);
    let (c1, c0) = floor_div(c, s);
    proof {
        assert(0 <= a1 <= 300_000_000_000 && -60_000_000_000_001 <= b1 <= 60_000_000_000_000
            && -16_000_000_000_000_001 <= c1 <= 16_000_000_000_000_000) by (nonlinear_arith)
            requires
                a == a1 * s + a0,
                b == b1 * s + b0,
                c == c1 * s + c0,
                0 <= a0 < s,
                0 <= b0 < s,
                0 <= c0 < s,
                s == 1_000_000_000,
                0 <= a <= 300_000_000_000_000_000_000,
                -60_000_000_000_000_000_000_000 <= b <= 60_000_000_000_000_000_000_000,
                -16_000_000_000_000_000_000_000_000 <= c <= 16_000_000_000_000_000_000_000_000,
        ;
    }
    let b1_bound: i128 = 60_000_000_000_001;
    let c1_bound: i128 = 16_000_000_000_000_001;
    proof {
        assert(b1_bound * b1_bound <= 3_700_000_000_000_000_000_000_000_000 && 300_000_000_000
            * c1_bound <= 4_900_000_000_000_000_000_000_000_000 && b1_bound * s
            <= 61_000_000_000_000_000_000_000 && c1_bound * s <= 17_000_000_000_000_000_000_000_000
            && s * s == 1_000_000_000_000_000_000 && 300_000_000_000 * s
            == 300_000_000_000_000_000_000) by (nonlinear_arith)
            requires
                b1_bound == 60_000_000_000_001,
                c1_bound == 16_000_000_000_000_001,
                s == 1_000_000_000,
        ;
    }
    let t1: i128 = bounded_product(b1, b1, b1_bound, b1_bound) - bounded_product(
        a1,
        c1,
        300_000_000_000,
        c1_bound,
    );
    let t2: i128 = 2 * bounded_product(b1, b0, b1_bound, s) - bounded_product(
        a1,
        c0,
        300_000_000_000,
        s,
    ) - bounded_product(c1, a0, c1_bound, s);
    let t3: i128 = bounded_product(b0, b0, s, s) - bounded_product(a0, c0, s, s);
    let (q3, _r3) = floor_div(t3, s);
    let (q2, _r2) = floor_div(t2 + q3, s);
    let q: i128 = t1 + q2;
    proof {
        lemma_discriminant_parts(s as int, a1 as int, a0 as int, b1 as int, b0 as int, c1 as int, c0
            as int);
        lemma_quotient_by_parts(s as int, t1 as int, t2 as int, t3 as int);
        assert(c1 * a0 == a0 * c1) by (nonlinear_arith);
        assert(q == spec_exact_discriminant(*origin, *d, *center, radius));
        assert(-1_000_000_001 <= q3 <= 1_000_000_000) by (nonlinear_arith)
            requires
                t3 == q3 * s + _r3,
                0 <= _r3 < s,
                s == 1_000_000_000,
                -1_000_000_000_000_000_000 <= t3 <= 1_000_000_000_000_000_000,
        ;
        assert(-20_000_000_000_000_000_000 <= q2 <= 20_000_000_000_000_000_000)
            by (nonlinear_arith)
            requires
                t3 == q3 * s + _r3,
                0 <= _r3 < s,
                t2 + q3 == q2 * s + _r2,
                0 <= _r2 < s,
                s == 1_000_000_000,
                -1_000_000_000_000_000_000 <= t3 <= 1_000_000_000_000_000_000,
                -18_000_000_000_000_000_000_000_000 <= t2 <= 18_000_000_000_000_000_000_000_000,
                -2_000_000_000_000_000_000 <= q3 <= 2_000_000_000_000_000_000,
        ;
    }
    if q < 0 {
        return None;
    }
    let root: i128 = int_sqrt_u128(q as u128) as i128;
    proof {
        if root > 100_000_000_000_000 {
            crate::fixed::lemma_square_monotone(100_000_000_000_000, root as int);
            assert(100_000_000_000_000int * 100_000_000_000_000int
                == 10_000_000_000_000_000_000_000_000_000) by (nonlinear_arith);
        }
        assert(0 <= root * s <= 100_000_000_000_000_000_000_000) by (nonlinear_arith)
            requires
                0 <= root <= 100_000_000_000_000,
                s == 1_000_000_000,
        ;
    }
    let low: i128 = -b - root * s;
    let high: i128 = -b + root * s;
    proof {
        assert(-200_000_000_000_000_000_000_000_000_000_000 <= low * s
            <= 200_000_000_000_000_000_000_000_000_000_000 && -200_000_000_000_000_000_000_000_000_000_000
            <= high * s <= 200_000_000_000_000_000_000_000_000_000_000) by (nonlinear_arith)
            requires
                -200_000_000_000_000_000_000_000 <= low <= 200_000_000_000_000_000_000_000,
                -200_000_000_000_000_000_000_000 <= high <= 200_000_000_000_000_000_000_000,
                s == 1_000_000_000,
        ;
    }
    let near = Scalar::from_wide(trunc_div_i128(low * s, a));
    let far = Scalar::from_wide(trunc_div_i128(high * s, a));
    Some((near, far))
}

} // verus!
