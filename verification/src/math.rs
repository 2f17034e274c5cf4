//! Shading without light transport: the sky gradient and the simple
//! visualisations built on it.

use vstd::prelude::*;
use crate::color::RGBColor;
use crate::error::GeometryError;
use crate::fixed::{
    lemma_trunc_div_cancel, lemma_trunc_div_common_factor, lemma_trunc_div_monotone, SCALE,
};
use crate::hittable::{HitRecord, Hittable};
use crate::random::{generate_unit_fraction, is_unit_fraction};
use crate::ray::Ray3D;
use crate::scalar::{lemma_raw_of_from_raw, Scalar};
use crate::scene::{spec_nearest_hit, Scene};
use crate::sphere::Sphere;
use crate::vector::{Vector3D, VectorOperations};

verus! {

broadcast use lemma_raw_of_from_raw;

/// One half.
pub open spec fn spec_half() -> Scalar {
    Scalar::spec_from_raw(500_000_000)
}

/// The blue of the sky: `(0.5, 0.7, 1.0)`.
pub open spec fn spec_sky_blue() -> RGBColor {
    RGBColor {
        R: Scalar::spec_from_raw(500_000_000),
        G: Scalar::spec_from_raw(700_000_000),
        B: Scalar::spec_one(),
    }
}

/// Pure red.
pub open spec fn spec_red() -> RGBColor {
    RGBColor { R: Scalar::spec_one(), G: Scalar::spec_zero(), B: Scalar::spec_zero() }
}

/// The linear blend `(1 - t) * white + t * sky_blue`.
pub open spec fn spec_blend(t: Scalar) -> RGBColor {
    RGBColor::spec_ones().spec_scale(Scalar::spec_one().spec_sub(t)).spec_add(
        spec_sky_blue().spec_scale(t),
    )
}

/// The color of the sky along `ray`: the blend at
/// `t = 0.5 * (unit_direction.y + 1)`, white at the bottom and blue at the
/// top. Only the zero vector has no unit direction, which is an error.
pub open spec fn spec_gradient(ray: Ray3D) -> Result<RGBColor, GeometryError> {
    if ray.direction.spec_norm().raw() == 0 {
        Err(GeometryError::ZeroNorm)
    } else {
        Ok(
            spec_blend(
                spec_half().spec_mul(ray.direction.spec_unit().y.spec_add(Scalar::spec_one())),
            ),
        )
    }
}

/// A vector shown as a color: each component moved from `[-1, 1]` to
/// `[0, 1]`.
pub open spec fn spec_normal_color(n: Vector3D) -> RGBColor {
    RGBColor { R: n.x, G: n.y, B: n.z }.spec_add(RGBColor::spec_ones()).spec_scale(spec_half())
}

pub fn half() -> (h: Scalar)
    ensures
        h == spec_half(),
{
    Scalar::from_raw(500_000_000)
}

pub fn sky_blue() -> (c: RGBColor)
    ensures
        c == spec_sky_blue(),
{
    RGBColor { R: Scalar::from_raw(500_000_000), G: Scalar::from_raw(700_000_000), B: Scalar::one() }
}

/// Whether the channels of a color are ordered and lie between black and
/// white: `0 <= R <= G <= B <= 1`.
pub open spec fn spec_ordered(c: RGBColor) -> bool {
    0 <= c.R.raw() <= c.G.raw() <= c.B.raw() <= SCALE
}

/// The blend for a height between minus one and one has a red channel of
/// at least one half, a green channel that is no smaller, and a blue
/// channel of one.
pub proof fn lemma_blend_channels(y: Scalar)
    requires
        -SCALE <= y.raw() <= SCALE,
    ensures
        ({
            let c = spec_blend(spec_half().spec_mul(y.spec_add(Scalar::spec_one())));
            500_000_000 <= c.R.raw() <= c.G.raw() <= c.B.raw() == SCALE
        }),
{
    let s = SCALE as int;
    let z = y.raw() + s;
    let t = spec_half().spec_mul(y.spec_add(Scalar::spec_one()));
    lemma_trunc_div_common_factor(z, 2, 500_000_000);
    assert(500_000_000 * z == z * 500_000_000) by (nonlinear_arith);
    assert(t.raw() == z / 2);
    let k = t.raw();
    lemma_trunc_div_cancel(s - k, s);
    assert(s * (s - k) == (s - k) * s) by (nonlinear_arith);
    assert(Scalar::spec_one().spec_mul(Scalar::spec_one().spec_sub(t)).raw() == s - k);
    lemma_trunc_div_common_factor(k, 2, 500_000_000);
    assert(500_000_000 * k == k * 500_000_000) by (nonlinear_arith);
    lemma_trunc_div_cancel(k, s);
    assert(s * k == k * s) by (nonlinear_arith);
    assert(500_000_000 * k <= 700_000_000 * k <= s * k) by (nonlinear_arith)
        requires
            k >= 0,
            s == 1_000_000_000,
    ;
    lemma_trunc_div_monotone(500_000_000 * k, 700_000_000 * k, s);
    lemma_trunc_div_monotone(700_000_000 * k, s * k, s);
}

/// The sky has a color along every ray whose direction is valid and not the
/// zero vector, and its channels are ordered.
pub proof fn lemma_gradient_channels(ray: Ray3D)
    requires
        ray.direction.wf(),
    ensures
        spec_gradient(ray) is Err <==> ray.direction == Vector3D::spec_zeros(),
        spec_gradient(ray) matches Ok(c) ==> 500_000_000 <= c.R.raw() <= c.G.raw() <= c.B.raw()
            == SCALE,
{
    Vector3D::lemma_norm_and_largest(ray.direction);
    if ray.direction.spec_largest() > 0 {
        Vector3D::lemma_unit_in_range(ray.direction);
        lemma_blend_channels(ray.direction.spec_unit().y);
    }
}

/// The color of the sky along the ray: an error for the zero direction
/// only, else the blend, whose channels are ordered.
pub fn ray_color(ray: &Ray3D) -> (r: Result<RGBColor, GeometryError>)
    ensures
        r == spec_gradient(*ray),
        r is Err <==> ray.direction == Vector3D::spec_zeros(),
        r matches Ok(c) ==> 500_000_000 <= c.R.raw() <= c.G.raw() <= c.B.raw() == SCALE,
{
    proof {
        use_type_invariant(&ray.direction.x);
        use_type_invariant(&ray.direction.y);
        use_type_invariant(&ray.direction.z);
        lemma_gradient_channels(*ray);
    }
    match ray.direction.unit_vector() {
        Err(e) => Err(e),
        Ok(unit_direction) => {
            let t: Scalar = half() * (unit_direction.y + Scalar::one());
            Ok(RGBColor::ones() * (Scalar::one() - t) + sky_blue() * t)
        },
    }
}

/// What `ray_color_2` returns.
pub open spec fn spec_ray_color_2(ray: Ray3D, sphere: Sphere) -> Result<RGBColor, GeometryError> {
    if sphere.spec_roots(ray).is_some() {
        Ok(spec_red())
    } else {
        spec_gradient(ray)
    }
}

/// Flat shading: red where the line of the ray crosses the sphere, the sky
/// elsewhere.
pub fn ray_color_2(ray: &Ray3D, sphere: &Sphere) -> (r: Result<RGBColor, GeometryError>)
    ensures
        r == spec_ray_color_2(*ray, *sphere),
{
    if sphere.is_hit(ray) {
        Ok(RGBColor { R: Scalar::one(), G: Scalar::zero(), B: Scalar::zero() })
    } else {
        ray_color(ray)
    }
}

/// What `ray_color_3` returns.
pub open spec fn spec_ray_color_3(ray: Ray3D, sphere: Sphere) -> Result<RGBColor, GeometryError> {
    let t = sphere.spec_is_hit_at(ray);
    if t.raw() > 0 {
        let towards = ray.spec_at(t).spec_sub(sphere.center());
        if towards.spec_norm().raw() == 0 {
            Err(GeometryError::ZeroNorm)
        } else {
            let n = towards.spec_unit();
            Ok(
                RGBColor {
                    R: n.x.spec_add(Scalar::spec_one()),
                    G: n.y.spec_add(Scalar::spec_one()),
                    B: n.z.spec_add(Scalar::spec_one()),
                }.spec_scale(spec_half()),
            )
        }
    } else {
        spec_gradient(ray)
    }
}

/// Normal shading of one sphere: where the ray meets the sphere in front of
/// its origin, the unit normal there shown as a color; the sky elsewhere.
pub fn ray_color_3(ray: &Ray3D, sphere: &Sphere) -> (r: Result<RGBColor, GeometryError>)
    ensures
        r == spec_ray_color_3(*ray, *sphere),
{
    let t = sphere.is_hit_at(ray);
    if t > Scalar::zero() {
        match (ray.at(t) - sphere.get_center()).unit_vector() {
            Err(e) => Err(e),
            Ok(n) => Ok(
                RGBColor {
                    R: n.x + Scalar::one(),
                    G: n.y + Scalar::one(),
                    B: n.z + Scalar::one(),
                } * half(),
            ),
        }
    } else {
        ray_color(ray)
    }
}

/// What `ray_color_4` returns.
pub open spec fn spec_ray_color_4<H: Hittable>(ray: Ray3D, scene: Scene<H>) -> Result<
    RGBColor,
    GeometryError,
> {
    match spec_nearest_hit(scene@, &ray, Scalar::spec_zero(), Scalar::spec_max()) {
        Some(rec) => Ok(spec_normal_color(rec.normal_vector)),
        None => spec_gradient(ray),
    }
}

/// Normal shading of a scene: the stored normal of the nearest intersection
/// in front of the origin shown as a color; the sky where nothing is hit.
pub fn ray_color_4<H: Hittable>(ray: &Ray3D, scene: &Scene<H>) -> (r: Result<
    RGBColor,
    GeometryError,
>)
    ensures
        r == spec_ray_color_4(*ray, *scene),
{
    let mut hit_record = HitRecord::default();
    if scene.hit(ray, Scalar::zero(), Scalar::max_value(), &mut hit_record) {
        let n = hit_record.get_normal_vector();
        Ok((RGBColor { R: n.x, G: n.y, B: n.z } + RGBColor::ones()) * half())
    } else {
        ray_color(ray)
    }
}

/// The number that `generate_random_number` makes of the fraction `u`:
/// `min + u * (max - min)`, where a missing `min` counts as zero and a
/// missing `max` as the largest value.
pub open spec fn spec_random_number(min_value: Option<Scalar>, max_value: Option<Scalar>, u: Scalar) -> Scalar {
    match (min_value, max_value) {
        (Some(min), Some(max)) => min.spec_add(u.spec_mul(max.spec_sub(min))),
        (Some(min), None) => min.spec_add(u.spec_mul(Scalar::spec_max().spec_sub(min))),
        (None, Some(max)) => u.spec_mul(max),
        (None, None) => u.spec_mul(Scalar::spec_max()),
    }
}

/// The number in the given range at the fraction `u`.
pub fn random_number_at(min_value: Option<Scalar>, max_value: Option<Scalar>, u: Scalar) -> (r:
    Scalar)
    ensures
        r == spec_random_number(min_value, max_value, u),
{
    match (min_value, max_value) {
        (Some(min), Some(max)) => min + u * (max - min),
        (Some(min), None) => min + u * (Scalar::max_value() - min),
        (None, Some(max)) => u * max,
        (None, None) => u * Scalar::max_value(),
    }
}

/// A random number in the given range, or up to the largest value where no
/// range is given: the number at a fraction drawn from `[0, 1)`.
pub fn generate_random_number(
    rng: &mut fastrand::Rng,
    min_value: Option<Scalar>,
    max_value: Option<Scalar>,
) -> (r: Scalar)
    ensures
        exists|u: Scalar| is_unit_fraction(u) && r == spec_random_number(min_value, max_value, u),
{
    let u = generate_unit_fraction(rng);
    random_number_at(min_value, max_value, u)
}

} // verus!
