//! How far rounding can move a reported intersection off its sphere.

use vstd::prelude::*;
use crate::fixed::{abs, int_sqrt, lemma_int_sqrt_exists, lemma_square_monotone, trunc_div, RAW_MAX, SCALE};
use crate::ray::Ray3D;
use crate::scalar::{lemma_raw_of_from_raw, Scalar};
use crate::exact::{
    spec_bounded, spec_exact_a, spec_exact_b, spec_exact_c, spec_exact_discriminant,
    spec_exact_roots, spec_ordinary, DIRECTION_LIMIT, POSITION_LIMIT,
};
use crate::sphere::Sphere;
use crate::vector::Vector3D;

verus! {

broadcast use lemma_raw_of_from_raw;

/// The product of two integers is bounded by the product of bounds on their
/// absolute values.
pub proof fn lemma_abs_mul_bound(x: int, y: int, bx: int, by: int)
    requires
        abs(x) <= bx,
        abs(y) <= by,
    ensures
        abs(x * y) <= bx * by,
{
    assert(abs(x * y) <= bx * by) by (nonlinear_arith)
        requires
            -bx <= x <= bx,
            -by <= y <= by,
    ;
}

/// `(s o + t d)^2 == s^2 o^2 + 2 s t (o d) + t^2 d^2`.
proof fn lemma_square_of_scaled_sum(s: int, o: int, d: int, t: int)
    ensures
        (s * o + t * d) * (s * o + t * d) == s * s * (o * o) + 2 * s * t * (o * d) + t * t * (d
            * d),
{
    let x = s * o;
    let y = t * d;
    assert((x + y) * (x + y) == x * x + 2 * (x * y) + y * y) by (nonlinear_arith);
    assert(x * x == s * s * (o * o)) by (nonlinear_arith)
        requires
            x == s * o,
    ;
    assert(y * y == t * t * (d * d)) by (nonlinear_arith)
        requires
            y == t * d,
    ;
    assert(2 * (x * y) == 2 * s * t * (o * d)) by (nonlinear_arith)
        requires
            x == s * o,
            y == t * d,
    ;
}

/// The squared distance from the center of the point of the ray at
/// parameter `t / s`, less the squared radius, is the quadratic with the
/// exact dot products as coefficients, all in units of `1 / s^2`.
pub proof fn lemma_distance_is_quadratic(
    s: int,
    ox: int,
    oy: int,
    oz: int,
    dx: int,
    dy: int,
    dz: int,
    r: int,
    t: int,
)
    ensures
        (s * ox + t * dx) * (s * ox + t * dx) + (s * oy + t * dy) * (s * oy + t * dy) + (s * oz
            + t * dz) * (s * oz + t * dz) - s * s * (r * r) == (dx * dx + dy * dy + dz * dz) * (t
            * t) + 2 * s * t * (ox * dx + oy * dy + oz * dz) + s * s * (ox * ox + oy * oy + oz
            * oz - r * r),
{
    lemma_square_of_scaled_sum(s, ox, dx, t);
    lemma_square_of_scaled_sum(s, oy, dy, t);
    lemma_square_of_scaled_sum(s, oz, dz, t);
    let tt = t * t;
    let ss = s * s;
    let st = 2 * s * t;
    assert((dx * dx + dy * dy + dz * dz) * tt == tt * (dx * dx) + tt * (dy * dy) + tt * (dz * dz))
        by (nonlinear_arith);
    assert(st * (ox * dx + oy * dy + oz * dz) == st * (ox * dx) + st * (oy * dy) + st * (oz * dz))
        by (nonlinear_arith);
    assert(ss * (ox * ox + oy * oy + oz * oz - r * r) == ss * (ox * ox) + ss * (oy * oy) + ss * (
    oz * oz) - ss * (r * r)) by (nonlinear_arith);
}

/// Rounding each coordinate of the point by less than one unit moves its
/// squared distance from the center by at most `2 (|wx| + |wy| + |wz|) + 3`,
/// where `w` is the rounded point relative to the center.
pub proof fn lemma_point_rounding(
    s: int,
    yx: int,
    yy: int,
    yz: int,
    wx: int,
    wy: int,
    wz: int,
)
    requires
        s > 0,
        -s < yx - s * wx < s,
        -s < yy - s * wy < s,
        -s < yz - s * wz < s,
    ensures
        abs(s * s * (wx * wx + wy * wy + wz * wz) - (yx * yx + yy * yy + yz * yz)) <= s * s * (2
            * (abs(wx) + abs(wy) + abs(wz)) + 3),
{
    lemma_coordinate_rounding(s, yx, wx);
    lemma_coordinate_rounding(s, yy, wy);
    lemma_coordinate_rounding(s, yz, wz);
    let ss = s * s;
    assert(ss * (wx * wx + wy * wy + wz * wz) == ss * (wx * wx) + ss * (wy * wy) + ss * (wz * wz))
        by (nonlinear_arith);
    assert(ss * (2 * (abs(wx) + abs(wy) + abs(wz)) + 3) == ss * (2 * abs(wx) + 1) + ss * (2
        * abs(wy) + 1) + ss * (2 * abs(wz) + 1)) by (nonlinear_arith);
}

proof fn lemma_coordinate_rounding(s: int, y: int, w: int)
    requires
        s > 0,
        -s < y - s * w < s,
    ensures
        abs(s * s * (w * w) - y * y) <= s * s * (2 * abs(w) + 1),
{
    let rho = y - s * w;
    let sw = s * w;
    assert(y * y == sw * sw + 2 * (sw * rho) + rho * rho) by (nonlinear_arith)
        requires
            y == sw + rho,
    ;
    assert(sw * sw == s * s * (w * w)) by (nonlinear_arith)
        requires
            sw == s * w,
    ;
    assert(abs(sw) <= s * abs(w)) by (nonlinear_arith)
        requires
            sw == s * w,
            s > 0,
    ;
    lemma_abs_mul_bound(sw, rho, s * abs(w), s);
    assert((s * abs(w)) * s == s * s * abs(w)) by (nonlinear_arith);
    assert(0 <= rho * rho <= s * s) by (nonlinear_arith)
        requires
            -s < rho < s,
    ;
    assert(s * s * (2 * abs(w) + 1) == 2 * (s * s * abs(w)) + s * s) by (nonlinear_arith);
}

/// Rounding a quotient toward zero loses less than the divisor, and
/// nothing of the sign.
pub proof fn lemma_trunc_div_error(n: int, d: int)
    requires
        d > 0,
    ensures
        abs(n - d * trunc_div(n, d)) < d,
        n >= 0 ==> n - d * trunc_div(n, d) >= 0,
        n <= 0 ==> n - d * trunc_div(n, d) <= 0,
{
    if n >= 0 {
        vstd::arithmetic::div_mod::lemma_fundamental_div_mod(n, d);
        vstd::arithmetic::div_mod::lemma_mod_bound(n, d);
    } else {
        vstd::arithmetic::div_mod::lemma_fundamental_div_mod(-n, d);
        vstd::arithmetic::div_mod::lemma_mod_bound(-n, d);
        assert(d * (-((-n) / d)) == -(d * ((-n) / d))) by (nonlinear_arith);
    }
}

/// Stretching a bounded vector keeps it within the bound, where the bound is
/// at least two, and multiplies every component by the stretch factor
/// exactly.
pub proof fn lemma_stretched_bounded(v: Vector3D, limit: int)
    requires
        spec_bounded(v, limit),
        2 * SCALE <= limit <= RAW_MAX,
    ensures
        spec_bounded(v.spec_stretched(), limit),
        v.spec_stretch() >= 1,
        v.spec_stretched().x.raw() == v.x.raw() * v.spec_stretch(),
        v.spec_stretched().y.raw() == v.y.raw() * v.spec_stretch(),
        v.spec_stretched().z.raw() == v.z.raw() * v.spec_stretch(),
        v.spec_largest() > 0 ==> v.spec_stretched().spec_largest() >= SCALE,
{
    if v.spec_largest() > 0 {
        Vector3D::lemma_stretched_is_long(v);
    } else {
        assert(v.x.raw() * 1 == v.x.raw() && v.y.raw() * 1 == v.y.raw() && v.z.raw() * 1
            == v.z.raw());
    }
}

/// The largest root, which is the ray parameter divided by the stretch
/// factor of the direction, for which the distance is stated: one million.
pub open spec fn spec_parameter_limit() -> int {
    1_000_000_000_000_000
}

/// One coordinate of the point of a ray, relative to a center, is computed
/// without saturation and within one unit of the exact one. The product of
/// direction and parameter is given as that of the stretched direction and
/// the root, which are bounded.
proof fn lemma_coordinate_exact(o: Scalar, c: Scalar, d: Scalar, t: Scalar, long: int, root: int)
    requires
        abs(o.raw()) <= POSITION_LIMIT,
        abs(c.raw()) <= POSITION_LIMIT,
        d.raw() * t.raw() == root * long,
        abs(long) <= DIRECTION_LIMIT,
        abs(root) <= spec_parameter_limit(),
    ensures
        ({
            let w = o.spec_add(d.spec_mul(t)).spec_sub(c);
            -SCALE < SCALE * (o.raw() - c.raw()) + root * long - SCALE * w.raw() < SCALE
        }),
{
    let s = SCALE as int;
    let n = root * long;
    lemma_abs_mul_bound(root, long, 1_000_000_000_000_000, 10_000_000_000);
    lemma_trunc_div_error(n, s);
    let m = trunc_div(n, s);
    assert(abs(m) <= 10_000_000_000_000_000) by (nonlinear_arith)
        requires
            abs(n - s * m) < s,
            n >= 0 ==> n - s * m >= 0,
            n <= 0 ==> n - s * m <= 0,
            abs(n) <= 1_000_000_000_000_000 * 10_000_000_000,
            s == 1_000_000_000,
    ;
    let w = o.spec_add(d.spec_mul(t)).spec_sub(c);
    assert(d.spec_mul(t).raw() == m);
    assert(w.raw() == o.raw() + m - c.raw());
    assert(SCALE * w.raw() == SCALE * (o.raw() - c.raw()) + SCALE * m) by (nonlinear_arith)
        requires
            w.raw() == o.raw() + m - c.raw(),
    ;
}

/// A root of the quadratic with exact coefficients solves it up to the one
/// rounding of the discriminant and the one of the quotient. Here `q` is
/// `(b^2 - a c) / s^2` rounded down, `root` its integer square root, and
/// `t` is `(-b -+ root s) s / a` with a remainder `rt`.
proof fn lemma_exact_residual(
    s: int,
    a: int,
    b: int,
    c: int,
    q: int,
    root: int,
    sign: int,
    t: int,
    rt: int,
)
    requires
        s > 0,
        a > 0,
        0 <= b * b - a * c - (s * s) * q < s * s,
        root >= 0,
        root * root <= q < (root + 1) * (root + 1),
        sign == 1 || sign == -1,
        a * t == (-b + sign * (root * s)) * s - rt,
        -a < rt < a,
    ensures
        abs(a * (a * t * t + 2 * s * b * t + s * s * c)) <= 2 * root * (s * s) * a + a * a + (2
            * root + 1) * ((s * s) * (s * s)),
{
    let u = a * t;
    let w = s * b;
    let lead = u + w;
    let ss = s * s;
    let sr = sign * root * ss;
    let sigma = q - root * root;
    let delta = b * b - a * c - ss * q;
    let quad = a * t * t + 2 * s * b * t + s * s * c;
    assert(0 <= sigma <= 2 * root) by (nonlinear_arith)
        requires
            sigma == q - root * root,
            root * root <= q < (root + 1) * (root + 1),
    ;
    assert((-b + sign * (root * s)) * s == sr - w) by (nonlinear_arith)
        requires
            sr == sign * root * ss,
            ss == s * s,
            w == s * b,
    ;
    assert(lead == sr - rt);
    assert(a * (a * t * t) == u * u) by (nonlinear_arith)
        requires
            u == a * t,
    ;
    assert(a * (2 * s * b * t) == 2 * (u * w)) by (nonlinear_arith)
        requires
            u == a * t,
            w == s * b,
    ;
    assert(a * (s * s * c) == ss * (a * c)) by (nonlinear_arith)
        requires
            ss == s * s,
    ;
    assert(a * quad == a * (a * t * t) + a * (2 * s * b * t) + a * (s * s * c))
        by (nonlinear_arith)
        requires
            quad == a * t * t + 2 * s * b * t + s * s * c,
    ;
    assert(lead * lead == u * u + 2 * (u * w) + w * w) by (nonlinear_arith)
        requires
            lead == u + w,
    ;
    assert(w * w == ss * (b * b)) by (nonlinear_arith)
        requires
            w == s * b,
            ss == s * s,
    ;
    assert(ss * (b * b - a * c) == ss * (b * b) - ss * (a * c)) by (nonlinear_arith);
    assert(a * quad == lead * lead - ss * (b * b - a * c));
    assert(sr * sr == (root * root) * (ss * ss)) by (nonlinear_arith)
        requires
            sr == sign * root * ss,
            sign == 1 || sign == -1,
    ;
    assert(lead * lead == sr * sr - 2 * (sr * rt) + rt * rt) by (nonlinear_arith)
        requires
            lead == sr - rt,
    ;
    assert(ss * (b * b - a * c) == (root * root) * (ss * ss) + sigma * (ss * ss) + ss * delta)
        by (nonlinear_arith)
        requires
            delta == b * b - a * c - ss * q,
            sigma == q - root * root,
    ;
    assert(a * quad == -(sigma * (ss * ss)) - ss * delta - 2 * (sr * rt) + rt * rt);
    assert(0 <= sigma * (ss * ss) <= 2 * root * (ss * ss)) by (nonlinear_arith)
        requires
            0 <= sigma <= 2 * root,
            ss * ss >= 0,
    ;
    assert(ss * ss >= 0) by (nonlinear_arith);
    assert(0 <= ss * delta <= ss * ss) by (nonlinear_arith)
        requires
            0 <= delta < ss,
            ss > 0,
    ;
    assert(ss > 0) by (nonlinear_arith)
        requires
            ss == s * s,
            s > 0,
    ;
    assert(abs(sr) <= root * ss) by (nonlinear_arith)
        requires
            sr == sign * root * ss,
            sign == 1 || sign == -1,
            root >= 0,
            ss > 0,
    ;
    lemma_abs_mul_bound(sr, rt, root * ss, a);
    assert(2 * ((root * ss) * a) == 2 * root * ss * a) by (nonlinear_arith);
    assert(0 <= rt * rt <= a * a) by (nonlinear_arith)
        requires
            -a < rt < a,
    ;
    assert((2 * root + 1) * (ss * ss) == 2 * root * (ss * ss) + ss * ss) by (nonlinear_arith);
}

/// The bound on the difference between the squared distance of a reported
/// point from the center and the squared radius, in squared raw units:
/// `4 root + 2 spread + 304`, where `root` is the square root of the
/// discriminant and `spread` the sum of the absolute coordinates of the
/// point relative to the center.
pub open spec fn spec_distance_tolerance(root: int, spread: int) -> int {
    4 * root + 2 * spread + 304
}

/// The squared distance, in raw units, of a point from the center of the
/// sphere.
pub open spec fn spec_squared_distance(sphere: Sphere, point: Vector3D) -> int {
    let w = point.spec_sub(sphere.center());
    w.x.raw() * w.x.raw() + w.y.raw() * w.y.raw() + w.z.raw() * w.z.raw()
}

/// The sum of the absolute coordinates of a point relative to the center of
/// the sphere.
pub open spec fn spec_spread(sphere: Sphere, point: Vector3D) -> int {
    let w = point.spec_sub(sphere.center());
    abs(w.x.raw()) + abs(w.y.raw()) + abs(w.z.raw())
}

/// The square root of the discriminant of the ray against the sphere, for
/// the stretched direction: about the half chord that the ray cuts from the
/// sphere, times the length of that direction.
pub open spec fn spec_discriminant_root(sphere: Sphere, ray: Ray3D) -> int {
    int_sqrt(
        spec_exact_discriminant(
            ray.origin,
            ray.direction.spec_stretched(),
            sphere.center(),
            sphere.radius(),
        ),
    )
}

/// Whether a parameter is within reach: it is not saturated, and the root
/// behind it, the parameter divided by the stretch factor of the direction,
/// is at most a million.
pub open spec fn spec_within_reach(ray: Ray3D, t: Scalar) -> bool {
    abs(t.raw()) < RAW_MAX && abs(t.raw()) <= spec_parameter_limit()
        * ray.direction.spec_stretch()
}

/// An intersection that a sphere reports lies on the sphere up to rounding.
/// For a sphere and a ray of ordinary size, whatever the length of the
/// direction and however far the sphere, and a parameter within reach, the
/// squared distance of the reported point from the center differs from the
/// squared radius by no more than the tolerance, in squared raw units.
pub proof fn lemma_hit_lies_on_sphere(sphere: Sphere, ray: Ray3D, t_min: Scalar, t_max: Scalar)
    requires
        spec_ordinary(ray.origin, ray.direction, sphere.center(), sphere.radius()),
        sphere.spec_first_hit(ray, t_min, t_max) matches Some(rec) && spec_within_reach(
            ray,
            rec.t,
        ),
    ensures
        ({
            let rec = sphere.spec_first_hit(ray, t_min, t_max)->Some_0;
            let radius = sphere.radius().raw();
            abs(spec_squared_distance(sphere, rec.point) - radius * radius)
                <= spec_distance_tolerance(
                spec_discriminant_root(sphere, ray),
                spec_spread(sphere, rec.point),
            )
        }),
{
    let rec = sphere.spec_first_hit(ray, t_min, t_max)->Some_0;
    let s = SCALE as int;
    let o = ray.origin;
    let ce = sphere.center();
    let d = ray.direction.spec_stretched();
    let k = ray.direction.spec_stretch();
    lemma_stretched_bounded(ray.direction, DIRECTION_LIMIT as int);
    let roots = spec_exact_roots(o, d, ce, sphere.radius())->Some_0;
    let a = spec_exact_a(d);
    let b = spec_exact_b(o, d, ce);
    let c = spec_exact_c(o, ce, sphere.radius());
    let q = spec_exact_discriminant(o, d, ce, sphere.radius());
    let root = int_sqrt(q);
    let r = sphere.radius().raw();
    let w = rec.point.spec_sub(ce);
    let sign: int = if rec.t == roots.0.spec_times(k) {
        -1
    } else {
        1
    };
    let chosen = if sign == -1 {
        roots.0
    } else {
        roots.1
    };
    let t = chosen.raw();
    lemma_int_sqrt_exists(q);
    // The direction is not the zero vector, so its stretched form is long.
    assert(d.x.raw() * d.x.raw() >= 0 && d.y.raw() * d.y.raw() >= 0 && d.z.raw() * d.z.raw() >= 0)
        by (nonlinear_arith);
    lemma_abs_mul_bound(d.x.raw(), d.x.raw(), 10_000_000_000, 10_000_000_000);
    lemma_abs_mul_bound(d.y.raw(), d.y.raw(), 10_000_000_000, 10_000_000_000);
    lemma_abs_mul_bound(d.z.raw(), d.z.raw(), 10_000_000_000, 10_000_000_000);
    if ray.direction.spec_largest() == 0 {
        assert(d.x.raw() * d.x.raw() == 0 && d.y.raw() * d.y.raw() == 0 && d.z.raw() * d.z.raw()
            == 0) by (nonlinear_arith)
            requires
                d.x.raw() == 0,
                d.y.raw() == 0,
                d.z.raw() == 0,
        ;
        assert(false);
    }
    let m = d.spec_largest();
    assert(d.x.raw() * d.x.raw() == abs(d.x.raw()) * abs(d.x.raw())) by (nonlinear_arith);
    assert(d.y.raw() * d.y.raw() == abs(d.y.raw()) * abs(d.y.raw())) by (nonlinear_arith);
    assert(d.z.raw() * d.z.raw() == abs(d.z.raw()) * abs(d.z.raw())) by (nonlinear_arith);
    assert(m * m >= s * s) by (nonlinear_arith)
        requires
            m >= s,
            s > 0,
    ;
    assert(s * s <= a <= 300 * (s * s)) by (nonlinear_arith)
        requires
            m * m <= a,
            m * m >= s * s,
            a <= 3 * (10_000_000_000 * 10_000_000_000),
            s == 1_000_000_000,
    ;
    // The parameter is the root times the stretch factor, without
    // saturation, and the root is the rounded quotient.
    assert(rec.t.raw() == t * k && abs(t) <= spec_parameter_limit()) by {
        assert(abs(t * k) == abs(t) * k) by (nonlinear_arith)
            requires
                k >= 1,
        ;
        assert(abs(t) <= spec_parameter_limit()) by (nonlinear_arith)
            requires
                abs(t) * k <= spec_parameter_limit() * k,
                k >= 1,
        ;
    }
    let numerator = (-b + sign * (root * s)) * s;
    assert(sign * (root * s) == if sign == 1 {
        root * s
    } else {
        -(root * s)
    }) by (nonlinear_arith)
        requires
            sign == 1 || sign == -1,
    ;
    lemma_trunc_div_error(numerator, a);
    let rt = numerator - a * t;
    vstd::arithmetic::div_mod::lemma_fundamental_div_mod(b * b - a * c, s * s);
    vstd::arithmetic::div_mod::lemma_mod_bound(b * b - a * c, s * s);
    lemma_exact_residual(s, a, b, c, q, root, sign, t, rt);
    let ox = o.x.raw() - ce.x.raw();
    let oy = o.y.raw() - ce.y.raw();
    let oz = o.z.raw() - ce.z.raw();
    lemma_distance_is_quadratic(s, ox, oy, oz, d.x.raw(), d.y.raw(), d.z.raw(), r, t);
    assert(rec.t.raw() * ray.direction.x.raw() == t * d.x.raw()) by (nonlinear_arith)
        requires
            rec.t.raw() == t * k,
            d.x.raw() == ray.direction.x.raw() * k,
    ;
    assert(rec.t.raw() * ray.direction.y.raw() == t * d.y.raw()) by (nonlinear_arith)
        requires
            rec.t.raw() == t * k,
            d.y.raw() == ray.direction.y.raw() * k,
    ;
    assert(rec.t.raw() * ray.direction.z.raw() == t * d.z.raw()) by (nonlinear_arith)
        requires
            rec.t.raw() == t * k,
            d.z.raw() == ray.direction.z.raw() * k,
    ;
    assert(ray.direction.x.raw() * rec.t.raw() == rec.t.raw() * ray.direction.x.raw()
        && ray.direction.y.raw() * rec.t.raw() == rec.t.raw() * ray.direction.y.raw()
        && ray.direction.z.raw() * rec.t.raw() == rec.t.raw() * ray.direction.z.raw())
        by (nonlinear_arith);
    lemma_coordinate_exact(o.x, ce.x, ray.direction.x, rec.t, d.x.raw(), t);
    lemma_coordinate_exact(o.y, ce.y, ray.direction.y, rec.t, d.y.raw(), t);
    lemma_coordinate_exact(o.z, ce.z, ray.direction.z, rec.t, d.z.raw(), t);
    let yx = s * ox + t * d.x.raw();
    let yy = s * oy + t * d.y.raw();
    let yz = s * oz + t * d.z.raw();
    lemma_point_rounding(s, yx, yy, yz, w.x.raw(), w.y.raw(), w.z.raw());
    let dist = spec_squared_distance(sphere, rec.point);
    let spread = spec_spread(sphere, rec.point);
    let moved = s * s * dist - (yx * yx + yy * yy + yz * yz);
    let quad = a * t * t + 2 * s * b * t + s * s * c;
    assert(a * (t * t) == a * t * t && 2 * s * t * b == 2 * s * b * t) by (nonlinear_arith);
    assert(yx * yx + yy * yy + yz * yz - s * s * (r * r) == quad);
    assert(s * s * (dist - r * r) == moved + quad) by (nonlinear_arith)
        requires
            moved == s * s * dist - (yx * yx + yy * yy + yz * yz),
            yx * yx + yy * yy + yz * yz - s * s * (r * r) == quad,
    ;
    lemma_close(s * s, a, dist - r * r, moved, quad, root, spread);
}

/// From the two errors to the bound: where `ss delta = moved + quad`,
/// `|moved| <= ss (2 spread + 3)`, `|a quad|` is within the residual and
/// `ss <= a <= 300 ss`, there `|delta| <= 4 root + 2 spread + 304`.
proof fn lemma_close(ss: int, a: int, delta: int, moved: int, quad: int, root: int, spread: int)
    requires
        ss > 0,
        ss <= a <= 300 * ss,
        root >= 0,
        spread >= 0,
        ss * delta == moved + quad,
        abs(moved) <= ss * (2 * spread + 3),
        abs(a * quad) <= 2 * root * ss * a + a * a + (2 * root + 1) * (ss * ss),
    ensures
        abs(delta) <= 4 * root + 2 * spread + 304,
{
    let bound = 4 * root + 2 * spread + 304;
    assert(a * ss > 0) by (nonlinear_arith)
        requires
            a > 0,
            ss > 0,
    ;
    assert(a * (ss * delta) == a * moved + a * quad) by (nonlinear_arith)
        requires
            ss * delta == moved + quad,
    ;
    lemma_abs_mul_bound(a, moved, a, ss * (2 * spread + 3));
    assert(a * (ss * (2 * spread + 3)) == (a * ss) * (2 * spread + 3)) by (nonlinear_arith);
    assert(2 * root * ss * a == (a * ss) * (2 * root)) by (nonlinear_arith);
    assert(a * a <= (a * ss) * 300) by (nonlinear_arith)
        requires
            0 < a <= 300 * ss,
    ;
    assert((2 * root + 1) * (ss * ss) <= (a * ss) * (2 * root + 1)) by (nonlinear_arith)
        requires
            0 < ss <= a,
            root >= 0,
    ;
    assert(abs(a * (ss * delta)) <= (a * ss) * (2 * spread + 3) + (a * ss) * (2 * root) + (a * ss)
        * 300 + (a * ss) * (2 * root + 1));
    assert((a * ss) * (2 * spread + 3) + (a * ss) * (2 * root) + (a * ss) * 300 + (a * ss) * (2
        * root + 1) == (a * ss) * bound) by (nonlinear_arith)
        requires
            bound == 4 * root + 2 * spread + 304,
    ;
    assert(a * (ss * delta) == (a * ss) * delta) by (nonlinear_arith);
    assert(abs(delta) <= bound) by (nonlinear_arith)
        requires
            abs((a * ss) * delta) <= (a * ss) * bound,
            a * ss > 0,
    ;
}

/// `(a + b + c)^2 <= 3 (a^2 + b^2 + c^2)`.
proof fn lemma_sum_squared(a: int, b: int, c: int)
    ensures
        (a + b + c) * (a + b + c) <= 3 * (a * a + b * b + c * c),
{
    assert((a - b) * (a - b) >= 0) by (nonlinear_arith);
    assert((a - c) * (a - c) >= 0) by (nonlinear_arith);
    assert((b - c) * (b - c) >= 0) by (nonlinear_arith);
    assert((a + b + c) * (a + b + c) <= 3 * (a * a + b * b + c * c)) by (nonlinear_arith)
        requires
            (a - b) * (a - b) >= 0,
            (a - c) * (a - c) >= 0,
            (b - c) * (b - c) >= 0,
    ;
}

/// One coordinate divided by the norm: with `q = |x| s / n` rounded down,
/// `n^2 q^2` lies between `s^2 x^2 - 2 s n |x|` and `s^2 x^2`.
proof fn lemma_quotient_squared(s: int, n: int, x: int, u: int)
    requires
        s > 0,
        n > 0,
        u == trunc_div(x * s, n),
    ensures
        n * n * (u * u) <= s * s * (x * x),
        n * n * (u * u) >= s * s * (x * x) - 2 * s * n * abs(x),
        abs(u) * n <= abs(x) * s,
{
    let big = abs(x);
    let q = abs(u);
    lemma_trunc_div_error(x * s, n);
    assert(abs(x * s) == big * s) by (nonlinear_arith)
        requires
            big == abs(x),
            s > 0,
    ;
    assert(abs(n * u) == n * q) by (nonlinear_arith)
        requires
            q == abs(u),
            n > 0,
    ;
    let nq = n * q;
    let bs = big * s;
    assert(0 <= nq <= bs < nq + n) by (nonlinear_arith)
        requires
            abs(x * s - n * u) < n,
            x * s >= 0 ==> x * s - n * u >= 0,
            x * s <= 0 ==> x * s - n * u <= 0,
            abs(x * s) == bs,
            abs(n * u) == nq,
            nq == n * q,
            q >= 0,
            n > 0,
    ;
    assert(nq * nq <= bs * bs) by (nonlinear_arith)
        requires
            0 <= nq <= bs,
    ;
    assert(nq * nq >= bs * bs - 2 * (bs * n)) by (nonlinear_arith)
        requires
            0 <= nq,
            bs < nq + n,
            0 <= bs,
            n > 0,
    ;
    assert(nq * nq == n * n * (u * u)) by (nonlinear_arith)
        requires
            nq == n * q,
            q == abs(u),
    ;
    assert(bs * bs == s * s * (x * x)) by (nonlinear_arith)
        requires
            bs == big * s,
            big == abs(x),
    ;
    assert(2 * (bs * n) == 2 * s * n * abs(x)) by (nonlinear_arith)
        requires
            bs == big * s,
            big == abs(x),
    ;
    assert(q * n == nq) by (nonlinear_arith)
        requires
            nq == n * q,
    ;
}

/// The norm of a normalized vector, in integers: where `n` is the rounded
/// norm of a vector with squared length `v`, at least one, and `u` the
/// squared length of the vector divided by `n`, the rounded norm `m` of
/// that vector is one within four units below and two above.
proof fn lemma_unit_norm_core(s: int, v: int, n: int, sigma: int, u: int, dot: int, m: int)
    requires
        s >= 100,
        n >= s,
        n * n <= v < (n + 1) * (n + 1) + 3 * s,
        0 <= sigma,
        sigma * sigma <= 3 * v,
        n * n * u <= s * s * v,
        n * n * u >= s * s * v - 2 * s * n * sigma,
        u - 3 * s < dot <= u,
        m >= 0,
        m * m <= dot < (m + 1) * (m + 1),
    ensures
        s - 4 <= m <= s + 2,
{
    let n2 = n * n;
    let s2 = s * s;
    assert(n2 >= s2 && n2 > 0 && n2 >= n * s && s2 > 0) by (nonlinear_arith)
        requires
            n >= s,
            s >= 100,
            n2 == n * n,
            s2 == s * s,
    ;
    // Above: u < (s + 3)^2.
    if u >= (s + 3) * (s + 3) {
        assert(n2 * u >= n2 * ((s + 3) * (s + 3))) by (nonlinear_arith)
            requires
                u >= (s + 3) * (s + 3),
                n2 > 0,
        ;
        assert(s2 * v < s2 * ((n + 1) * (n + 1) + 3 * s)) by (nonlinear_arith)
            requires
                v < (n + 1) * (n + 1) + 3 * s,
                s2 > 0,
        ;
        assert(n2 * ((s + 3) * (s + 3)) == n2 * s2 + 6 * (n2 * s) + 9 * n2) by (nonlinear_arith)
            requires
                s2 == s * s,
        ;
        assert(s2 * ((n + 1) * (n + 1) + 3 * s) == s2 * n2 + 2 * (s2 * n) + s2 + 3 * (s2 * s))
            by (nonlinear_arith)
            requires
                n2 == n * n,
        ;
        assert(n2 * s >= s2 * n && s2 * n >= s2 * s && s2 * s >= s2) by (nonlinear_arith)
            requires
                n >= s,
                s >= 100,
                n2 == n * n,
                s2 == s * s,
        ;
        assert(n2 * s2 == s2 * n2) by (nonlinear_arith);
        assert(false);
    }
    if m > s + 2 {
        lemma_square_monotone(s + 3, m);
        assert(false);
    }
    // Below: u >= s^2 - 5 s + 16.
    if u <= s2 - 5 * s + 15 {
        let p = 5 * s - 15;
        let delta = v - n2;
        let x = s2 * delta;
        let y = n2 * p;
        let z = 2 * s * n * sigma;
        assert(n2 * u <= n2 * (s2 - 5 * s + 15)) by (nonlinear_arith)
            requires
                u <= s2 - 5 * s + 15,
                n2 > 0,
        ;
        assert(n2 * (s2 - 5 * s + 15) == n2 * s2 - y) by (nonlinear_arith)
            requires
                y == n2 * p,
                p == 5 * s - 15,
        ;
        assert(s2 * v == s2 * n2 + x) by (nonlinear_arith)
            requires
                x == s2 * delta,
                delta == v - n2,
        ;
        assert(n2 * s2 == s2 * n2) by (nonlinear_arith);
        assert(z >= x + y);
        assert(x >= 0 && y >= 0) by (nonlinear_arith)
            requires
                x == s2 * delta,
                y == n2 * p,
                delta >= 0,
                s2 > 0,
                n2 > 0,
                p >= 0,
        ;
        assert(z * z >= y * y + 2 * (x * y)) by (nonlinear_arith)
            requires
                z >= x + y,
                x >= 0,
                y >= 0,
        ;
        let k = s2 * n2;
        assert(z * z == 4 * (k * (sigma * sigma))) by (nonlinear_arith)
            requires
                z == 2 * s * n * sigma,
                k == s2 * n2,
                s2 == s * s,
                n2 == n * n,
        ;
        assert(k * (sigma * sigma) <= k * (3 * v)) by (nonlinear_arith)
            requires
                sigma * sigma <= 3 * v,
                k >= 0,
        ;
        assert(k * (3 * v) == 3 * (k * n2) + 3 * (n2 * x)) by (nonlinear_arith)
            requires
                k == s2 * n2,
                x == s2 * delta,
                delta == v - n2,
        ;
        assert(y * y == (n2 * n2) * (p * p)) by (nonlinear_arith)
            requires
                y == n2 * p,
        ;
        assert(k * n2 == (n2 * n2) * s2) by (nonlinear_arith)
            requires
                k == s2 * n2,
        ;
        assert(p * p > 12 * s2) by (nonlinear_arith)
            requires
                p == 5 * s - 15,
                s2 == s * s,
                s >= 100,
        ;
        assert((n2 * n2) * (p * p) > (n2 * n2) * (12 * s2)) by (nonlinear_arith)
            requires
                p * p > 12 * s2,
                n2 > 0,
        ;
        assert((n2 * n2) * (12 * s2) == 12 * ((n2 * n2) * s2)) by (nonlinear_arith);
        assert(x * y == (n2 * x) * p) by (nonlinear_arith)
            requires
                y == n2 * p,
        ;
        assert((n2 * x) * p >= (n2 * x) * 6) by (nonlinear_arith)
            requires
                n2 > 0,
                x >= 0,
                p >= 6,
        ;
        assert(false);
    }
    if m < s - 4 {
        lemma_square_monotone(m + 1, s - 4);
        assert((s - 4) * (s - 4) == s2 - 8 * s + 16) by (nonlinear_arith)
            requires
                s2 == s * s,
        ;
        assert(false);
    }
}

/// The unit vector of a vector has norm one within tolerance: for every
/// valid vector that is not zero, the norm of its unit vector is at most
/// four billionths below one and at most two above.
pub proof fn lemma_unit_vector_norm(v: Vector3D)
    requires
        v.wf(),
        v.spec_largest() > 0,
    ensures
        SCALE - 4 <= v.spec_unit().spec_norm().raw() <= SCALE + 2,
{
    let s = SCALE as int;
    Vector3D::lemma_stretched_is_long(v);
    Vector3D::lemma_unit_in_range(v);
    let w = v.spec_stretched();
    let total = w.spec_square_sum();
    assert(w.x.raw() * w.x.raw() >= 0) by (nonlinear_arith);
    assert(w.y.raw() * w.y.raw() >= 0) by (nonlinear_arith);
    assert(w.z.raw() * w.z.raw() >= 0) by (nonlinear_arith);
    lemma_int_sqrt_exists(total);
    let n = int_sqrt(total);
    let unit = v.spec_unit();
    lemma_quotient_squared(s, n, w.x.raw(), trunc_div(w.x.raw() * s, n));
    lemma_quotient_squared(s, n, w.y.raw(), trunc_div(w.y.raw() * s, n));
    lemma_quotient_squared(s, n, w.z.raw(), trunc_div(w.z.raw() * s, n));
    assert(unit.x.raw() == trunc_div(w.x.raw() * s, n));
    assert(unit.y.raw() == trunc_div(w.y.raw() * s, n));
    assert(unit.z.raw() == trunc_div(w.z.raw() * s, n));
    let sigma = abs(w.x.raw()) + abs(w.y.raw()) + abs(w.z.raw());
    lemma_sum_squared(abs(w.x.raw()), abs(w.y.raw()), abs(w.z.raw()));
    assert(abs(w.x.raw()) * abs(w.x.raw()) == w.x.raw() * w.x.raw()) by (nonlinear_arith);
    assert(abs(w.y.raw()) * abs(w.y.raw()) == w.y.raw() * w.y.raw()) by (nonlinear_arith);
    assert(abs(w.z.raw()) * abs(w.z.raw()) == w.z.raw() * w.z.raw()) by (nonlinear_arith);
    let u = unit.spec_square_sum();
    lemma_abs_mul_bound(unit.x.raw(), unit.x.raw(), s, s);
    lemma_abs_mul_bound(unit.y.raw(), unit.y.raw(), s, s);
    lemma_abs_mul_bound(unit.z.raw(), unit.z.raw(), s, s);
    assert(unit.x.raw() * unit.x.raw() >= 0) by (nonlinear_arith);
    assert(unit.y.raw() * unit.y.raw() >= 0) by (nonlinear_arith);
    assert(unit.z.raw() * unit.z.raw() >= 0) by (nonlinear_arith);
    lemma_int_sqrt_exists(u);
    let m = int_sqrt(u);
    if m > 2 * s {
        lemma_square_monotone(2 * s, m);
        assert((2 * s) * (2 * s) == 4 * (s * s)) by (nonlinear_arith);
    }
    assert(unit.spec_norm().raw() == m);
    let n2 = n * n;
    let s2 = s * s;
    assert(n2 * u == n2 * (unit.x.raw() * unit.x.raw()) + n2 * (unit.y.raw() * unit.y.raw()) + n2
        * (unit.z.raw() * unit.z.raw())) by (nonlinear_arith)
        requires
            u == unit.x.raw() * unit.x.raw() + unit.y.raw() * unit.y.raw() + unit.z.raw()
                * unit.z.raw(),
    ;
    assert(s2 * total == s2 * (w.x.raw() * w.x.raw()) + s2 * (w.y.raw() * w.y.raw()) + s2 * (
    w.z.raw() * w.z.raw())) by (nonlinear_arith)
        requires
            total == w.x.raw() * w.x.raw() + w.y.raw() * w.y.raw() + w.z.raw() * w.z.raw(),
    ;
    assert(2 * s * n * sigma == 2 * s * n * abs(w.x.raw()) + 2 * s * n * abs(w.y.raw()) + 2 * s
        * n * abs(w.z.raw())) by (nonlinear_arith)
        requires
            sigma == abs(w.x.raw()) + abs(w.y.raw()) + abs(w.z.raw()),
    ;
    lemma_unit_norm_core(s, total, n, sigma, u, u, m);
}

} // verus!
