//! Sampling, the recursive color integrator, and the encoding of colors.

use vstd::prelude::*;
use crate::color::RGBColor;
use crate::error::GeometryError;
use crate::fixed::{trunc_div, SCALE};
use crate::hittable::{HitRecord, Hittable};
use crate::fixed::lemma_trunc_div_common_factor;
use crate::math::{half, lemma_gradient_channels, spec_gradient, spec_half, spec_ordered};
use crate::random::{generate_unit_fraction, interpolate, is_unit_fraction, spec_interpolate};
use crate::ray::Ray3D;
use crate::scalar::{lemma_raw_of_from_raw, Scalar};
use crate::scene::{spec_nearest_hit, Scene};
use crate::vector::{Vector3D, VectorOperations};

verus! {

broadcast use lemma_raw_of_from_raw;

/// How many points rejection sampling may draw before it gives up.
pub const MAX_ATTEMPTS: u32 = 128;

/// The ways of drawing a direction on the unit sphere.
#[derive(Clone, Copy, Debug, PartialEq, Eq, Structural)]
pub enum SamplingMethod {
    /// Points of the cube are drawn until one lies in the unit ball; it is
    /// then normalized. The default: it needs no transcendental function.
    AcceptanceRejection,
    /// A uniform angle around the axis and a uniform cosine along it.
    InverseCdf,
    /// Three Gaussian coordinates, normalized.
    GaussianSampling,
}

impl SamplingMethod {
    /// The method that a name stands for.
    pub open spec fn spec_from_name(name: Seq<char>) -> Result<SamplingMethod, GeometryError> {
        if name == "Acceptance-Rejection"@ {
            Ok(SamplingMethod::AcceptanceRejection)
        } else if name == "Inverse-CDF"@ {
            Ok(SamplingMethod::InverseCdf)
        } else if name == "Gaussian-Sampling"@ {
            Ok(SamplingMethod::GaussianSampling)
        } else {
            Err(GeometryError::UnknownSamplingMethod)
        }
    }

    /// Reads a method name; a name that is none of the three is refused.
    pub fn from_name(name: &str) -> (r: Result<SamplingMethod, GeometryError>)
        ensures
            r == SamplingMethod::spec_from_name(name@),
    {
        let given: String = name.to_owned();
        if given == "Acceptance-Rejection".to_owned() {
            Ok(SamplingMethod::AcceptanceRejection)
        } else if given == "Inverse-CDF".to_owned() {
            Ok(SamplingMethod::InverseCdf)
        } else if given == "Gaussian-Sampling".to_owned() {
            Ok(SamplingMethod::GaussianSampling)
        } else {
            Err(GeometryError::UnknownSamplingMethod)
        }
    }
}

impl Default for SamplingMethod {
    fn default() -> (m: SamplingMethod)
        ensures
            m == SamplingMethod::AcceptanceRejection,
    {
        SamplingMethod::AcceptanceRejection
    }
}

/// A number between `min_value` and `max_value`, drawn from the generator:
/// the interpolation at a random fraction of `[0, 1)`.
pub fn generate_random_uniform(rng: &mut fastrand::Rng, min_value: Scalar, max_value: Scalar) -> (r:
    Scalar)
    ensures
        exists|u: Scalar| is_unit_fraction(u) && r == spec_interpolate(min_value, max_value, u),
        min_value.raw() < max_value.raw() ==> min_value.raw() <= r.raw() < max_value.raw(),
{
    let u = generate_unit_fraction(rng);
    interpolate(min_value, max_value, u)
}

/// Whether every coordinate of `c` lies in `[-1, 1)`.
pub open spec fn in_cube(c: Vector3D) -> bool {
    &&& -SCALE <= c.x.raw() < SCALE
    &&& -SCALE <= c.y.raw() < SCALE
    &&& -SCALE <= c.z.raw() < SCALE
}

/// The direction that a point of the cube gives: the point normalized, where
/// it lies inside the unit ball and is not its center.
pub open spec fn spec_unit_from_cube_point(c: Vector3D) -> Option<Vector3D> {
    if 0 < c.spec_norm().raw() < SCALE {
        Some(c.spec_unit())
    } else {
        None
    }
}

/// Accepts or rejects one point of the cube.
pub fn unit_from_cube_point(c: &Vector3D) -> (r: Option<Vector3D>)
    ensures
        r == spec_unit_from_cube_point(*c),
{
    if c.norm() < Scalar::one() {
        match c.unit_vector() {
            Ok(unit) => Some(unit),
            Err(_) => None,
        }
    } else {
        None
    }
}

/// Whether `v` is what rejection sampling can draw: the direction of some
/// accepted point of the cube.
pub open spec fn is_rejection_sample(v: Vector3D) -> bool {
    exists|c: Vector3D| in_cube(c) && spec_unit_from_cube_point(c) == Some(v)
}

/// The direction that is returned where every attempt was rejected: the z
/// axis.
pub open spec fn spec_fallback_direction() -> Vector3D {
    Vector3D { x: Scalar::spec_zero(), y: Scalar::spec_zero(), z: Scalar::spec_one() }
}

/// Whether `v` is what the sampler can return: a rejection sample, or the
/// fallback direction.
pub open spec fn is_sample(v: Vector3D) -> bool {
    is_rejection_sample(v) || v == spec_fallback_direction()
}

/// Whether `v` is a direction of unit length within tolerance: every
/// coordinate lies between minus one and one, and the norm is at most four
/// billionths below one and at most two above.
pub open spec fn is_unit_direction(v: Vector3D) -> bool {
    &&& -SCALE <= v.x.raw() <= SCALE
    &&& -SCALE <= v.y.raw() <= SCALE
    &&& -SCALE <= v.z.raw() <= SCALE
    &&& SCALE - 4 <= v.spec_norm().raw() <= SCALE + 2
}

/// Everything that the sampler can return is a direction of unit length
/// within tolerance.
pub proof fn lemma_sample_is_unit(v: Vector3D)
    requires
        is_sample(v),
    ensures
        is_unit_direction(v),
{
    if is_rejection_sample(v) {
        let c = choose|c: Vector3D| in_cube(c) && spec_unit_from_cube_point(c) == Some(v);
        Vector3D::lemma_norm_and_largest(c);
        Vector3D::lemma_unit_in_range(c);
        crate::accuracy::lemma_unit_vector_norm(c);
    } else {
        let s = SCALE as int;
        assert(0int * 0int == 0) by (nonlinear_arith);
        crate::fixed::lemma_int_sqrt_of_square(s);
        assert(v.spec_square_sum() == s * s);
    }
}

/// A direction on the unit sphere, by rejection: at most `max_attempts`
/// points of the cube `[-1, 1)^3` are drawn, and the first one accepted
/// gives the direction. Where none is accepted, and so without an attempt,
/// the result is the fallback direction.
pub fn unit_sphere_point_within(rng: &mut fastrand::Rng, max_attempts: u32) -> (v: Vector3D)
    ensures
        is_sample(v),
        is_unit_direction(v),
        max_attempts == 0 ==> v == spec_fallback_direction(),
{
    let low = Scalar::from_int(-1);
    let high = Scalar::one();
    let mut attempt: u32 = 0;
    while attempt < max_attempts
        invariant
            low.raw() == -SCALE,
            high.raw() == SCALE,
        decreases max_attempts - attempt,
    {
        let candidate = Vector3D {
            x: generate_random_uniform(rng, low, high),
            y: generate_random_uniform(rng, low, high),
            z: generate_random_uniform(rng, low, high),
        };
        match unit_from_cube_point(&candidate) {
            Some(unit) => {
                proof {
                    assert(in_cube(candidate));
                    lemma_sample_is_unit(unit);
                }
                return unit;
            },
            None => {},
        }
        attempt += 1;
    }
    proof {
        lemma_sample_is_unit(spec_fallback_direction());
    }
    Vector3D { x: Scalar::zero(), y: Scalar::zero(), z: Scalar::one() }
}

/// A direction on the unit sphere, by rejection with `MAX_ATTEMPTS`
/// attempts.
pub fn random_uniform_unit_sphere_point(rng: &mut fastrand::Rng) -> (v: Vector3D)
    ensures
        is_sample(v),
        is_unit_direction(v),
{
    unit_sphere_point_within(rng, MAX_ATTEMPTS)
}

/// The direction with cosine `1 - 2u` along the z axis, at the angle around
/// it whose cosine and sine are given: with `z = 1 - 2u` and
/// `s = sqrt(1 - z^2)`, the point `(s cos, s sin, z)`.
pub open spec fn spec_inverse_cdf_point(u: Scalar, cos_theta: Scalar, sin_theta: Scalar) -> Vector3D {
    let z = Scalar::spec_one().spec_sub(Scalar::spec_from_int(2).spec_mul(u));
    let rest = Scalar::spec_one().spec_sub(z.spec_mul(z));
    let s = if rest.raw() < 0 {
        Scalar::spec_zero()
    } else {
        rest.spec_sqrt()
    };
    Vector3D { x: s.spec_mul(cos_theta), y: s.spec_mul(sin_theta), z }
}

/// The point of the sphere that inverse-CDF sampling makes of a fraction
/// `u` and of the cosine and sine of an angle around the axis.
pub fn inverse_cdf_point(u: Scalar, cos_theta: Scalar, sin_theta: Scalar) -> (p: Vector3D)
    ensures
        p == spec_inverse_cdf_point(u, cos_theta, sin_theta),
{
    let z = Scalar::one() - Scalar::from_int(2) * u;
    let rest = Scalar::one() - z * z;
    let s = match rest.sqrt() {
        Some(root) => root,
        None => Scalar::zero(),
    };
    Vector3D { x: s * cos_theta, y: s * sin_theta, z }
}

/// The lower end of the window in which scattered rays are tested, one
/// ten-thousandth: it keeps a ray from hitting the surface it starts on.
pub open spec fn spec_epsilon() -> Scalar {
    Scalar::spec_from_raw(100_000)
}

/// The ray that leaves an intersection towards
/// `point + normal + unit`.
pub open spec fn spec_scatter_ray(rec: HitRecord, unit: Vector3D) -> Ray3D {
    Ray3D {
        origin: rec.point,
        direction: rec.point.spec_add(rec.normal_vector).spec_add(unit).spec_sub(rec.point),
    }
}

pub fn scatter_ray(rec: &HitRecord, unit: Vector3D) -> (ray: Ray3D)
    ensures
        ray == spec_scatter_ray(*rec, unit),
{
    let p = rec.get_point();
    let target = p + rec.get_normal_vector() + unit;
    Ray3D { origin: p, direction: target - p }
}

/// Half of a color: what is left of the light after one bounce.
pub open spec fn spec_absorb(color: Result<RGBColor, GeometryError>) -> Result<
    RGBColor,
    GeometryError,
> {
    match color {
        Ok(c) => Ok(c.spec_scale(spec_half())),
        Err(e) => Err(e),
    }
}

/// The color along `ray` where the scatter directions are given, one for
/// each bounce that the budget allows. With no direction left the result is
/// black; a ray that hits nothing has the color of the sky; a ray that hits
/// is scattered with the next direction, and half the color along the
/// scattered ray comes back.
pub open spec fn spec_ray_color_along<H: Hittable>(
    objects: Seq<H>,
    ray: Ray3D,
    directions: Seq<Vector3D>,
) -> Result<RGBColor, GeometryError>
    decreases directions.len(),
{
    if directions.len() == 0 {
        Ok(RGBColor::spec_zeros())
    } else {
        match spec_nearest_hit(objects, &ray, spec_epsilon(), Scalar::spec_max()) {
            Some(rec) => spec_absorb(
                spec_ray_color_along(
                    objects,
                    spec_scatter_ray(rec, directions[0]),
                    directions.skip(1),
                ),
            ),
            None => spec_gradient(ray),
        }
    }
}

fn ray_color_from<H: Hittable>(
    ray: &Ray3D,
    scene: &Scene<H>,
    directions: &Vec<Vector3D>,
    start: usize,
) -> (r: Result<RGBColor, GeometryError>)
    requires
        start <= directions.len(),
    ensures
        r == spec_ray_color_along(scene@, *ray, directions@.skip(start as int)),
        r matches Err(e) ==> e == GeometryError::ZeroNorm,
    decreases directions.len() - start,
{
    if start == directions.len() {
        return Ok(RGBColor::zeros());
    }
    proof {
        assert(directions@.skip(start as int).skip(1) =~= directions@.skip(start + 1));
    }
    let mut hit_record = HitRecord::default();
    if scene.hit(ray, Scalar::from_raw(100_000), Scalar::max_value(), &mut hit_record) {
        let next = scatter_ray(&hit_record, directions[start]);
        match ray_color_from(&next, scene, directions, start + 1) {
            Ok(c) => Ok(c * half()),
            Err(e) => Err(e),
        }
    } else {
        crate::math::ray_color(ray)
    }
}

/// The color along `ray` for given scatter directions, as many as bounces
/// are allowed.
pub fn ray_color_along<H: Hittable>(ray: &Ray3D, scene: &Scene<H>, directions: &Vec<Vector3D>) -> (r:
    Result<RGBColor, GeometryError>)
    ensures
        r == spec_ray_color_along(scene@, *ray, directions@),
        r matches Ok(c) ==> spec_ordered(c),
        r matches Err(e) ==> e == GeometryError::ZeroNorm,
{
    proof {
        assert(directions@.skip(0) =~= directions@);
        use_type_invariant(&ray.direction.x);
        use_type_invariant(&ray.direction.y);
        use_type_invariant(&ray.direction.z);
        lemma_ray_color_along_ordered(scene@, *ray, directions@);
    }
    ray_color_from(ray, scene, directions, 0)
}

/// What one step along a path finds: the end of the path with its color, or
/// an intersection from which the path goes on.
#[derive(Clone, Copy, Debug, PartialEq, Eq)]
pub enum Step {
    /// The path ends: the budget is spent, or the ray left the scene.
    Done(Result<RGBColor, GeometryError>),
    /// The ray hit; the path goes on from this intersection.
    Bounce(HitRecord),
}

/// The step that a ray makes with `depth` bounces left: black without a
/// budget, else the nearest intersection, else the color of the sky.
pub open spec fn spec_trace_step<H: Hittable>(objects: Seq<H>, ray: Ray3D, depth: int) -> Step {
    if depth <= 0 {
        Step::Done(Ok(RGBColor::spec_zeros()))
    } else {
        match spec_nearest_hit(objects, &ray, spec_epsilon(), Scalar::spec_max()) {
            Some(rec) => Step::Bounce(rec),
            None => Step::Done(spec_gradient(ray)),
        }
    }
}

/// One step of a path, for a caller that draws the scatter directions
/// itself and as it needs them.
pub fn trace_step<H: Hittable>(ray: &Ray3D, scene: &Scene<H>, depth: i32) -> (step: Step)
    ensures
        step == spec_trace_step(scene@, *ray, depth as int),
{
    if depth <= 0 {
        return Step::Done(Ok(RGBColor::zeros()));
    }
    let mut hit_record = HitRecord::default();
    if scene.hit(ray, Scalar::from_raw(100_000), Scalar::max_value(), &mut hit_record) {
        Step::Bounce(hit_record)
    } else {
        Step::Done(crate::math::ray_color(ray))
    }
}

/// A color halved once for each of `bounces` bounces.
pub open spec fn spec_attenuate(color: Result<RGBColor, GeometryError>, bounces: nat) -> Result<
    RGBColor,
    GeometryError,
>
    decreases bounces,
{
    if bounces == 0 {
        color
    } else {
        spec_absorb(spec_attenuate(color, (bounces - 1) as nat))
    }
}

/// The color at the end of a path, as it arrives after `bounces` bounces.
pub fn attenuate(color: Result<RGBColor, GeometryError>, bounces: u32) -> (r: Result<
    RGBColor,
    GeometryError,
>)
    ensures
        r == spec_attenuate(color, bounces as nat),
{
    match color {
        Err(e) => {
            proof {
                lemma_attenuate_error(e, bounces as nat);
            }
            Err(e)
        },
        Ok(c) => {
            let mut current = c;
            let mut done: u32 = 0;
            while done < bounces
                invariant
                    done <= bounces,
                    Ok::<RGBColor, GeometryError>(current) == spec_attenuate(color, done as nat),
                decreases bounces - done,
            {
                current = current * half();
                done += 1;
            }
            Ok(current)
        },
    }
}

proof fn lemma_attenuate_error(e: GeometryError, bounces: nat)
    ensures
        spec_attenuate(Err(e), bounces) == Err::<RGBColor, GeometryError>(e),
    decreases bounces,
{
    if bounces > 0 {
        lemma_attenuate_error(e, (bounces - 1) as nat);
    }
}

/// The color along a path is the color at its end, halved once for each
/// bounce: it unfolds step by step.
pub proof fn lemma_color_by_steps<H: Hittable>(
    objects: Seq<H>,
    ray: Ray3D,
    directions: Seq<Vector3D>,
)
    ensures
        spec_ray_color_along(objects, ray, directions) == (match spec_trace_step(
            objects,
            ray,
            directions.len() as int,
        ) {
            Step::Done(color) => color,
            Step::Bounce(rec) => spec_attenuate(
                spec_ray_color_along(
                    objects,
                    spec_scatter_ray(rec, directions[0]),
                    directions.skip(1),
                ),
                1,
            ),
        }),
{
    let inner = spec_ray_color_along(
        objects,
        spec_scatter_ray(
            spec_nearest_hit(objects, &ray, spec_epsilon(), Scalar::spec_max())->Some_0,
            directions[0],
        ),
        directions.skip(1),
    );
    assert(spec_attenuate(inner, 1) == spec_absorb(spec_attenuate(inner, 0)));
}

/// Half of an ordered color is ordered.
proof fn lemma_half_ordered(c: RGBColor)
    requires
        spec_ordered(c),
    ensures
        spec_ordered(c.spec_scale(spec_half())),
{
    lemma_trunc_div_common_factor(c.R.raw(), 2, 500_000_000);
    lemma_trunc_div_common_factor(c.G.raw(), 2, 500_000_000);
    lemma_trunc_div_common_factor(c.B.raw(), 2, 500_000_000);
}

/// The color along a ray with a valid direction has ordered channels
/// between black and white, whatever the scatter directions.
pub proof fn lemma_ray_color_along_ordered<H: Hittable>(
    objects: Seq<H>,
    ray: Ray3D,
    directions: Seq<Vector3D>,
)
    requires
        ray.direction.wf(),
    ensures
        spec_ray_color_along(objects, ray, directions) matches Ok(c) ==> spec_ordered(c),
    decreases directions.len(),
{
    if directions.len() > 0 {
        match spec_nearest_hit(objects, &ray, spec_epsilon(), Scalar::spec_max()) {
            Some(rec) => {
                let next = spec_scatter_ray(rec, directions[0]);
                lemma_ray_color_along_ordered(objects, next, directions.skip(1));
                match spec_ray_color_along(objects, next, directions.skip(1)) {
                    Ok(c) => {
                        lemma_half_ordered(c);
                    },
                    Err(_) => {},
                }
            },
            None => {
                lemma_gradient_channels(ray);
            },
        }
    }
}

/// With a budget of one bounce a ray that hits comes back black: the bounce
/// uses the budget up.
pub proof fn lemma_one_bounce_is_black<H: Hittable>(
    objects: Seq<H>,
    ray: Ray3D,
    directions: Seq<Vector3D>,
)
    requires
        directions.len() == 1,
        spec_nearest_hit(objects, &ray, spec_epsilon(), Scalar::spec_max()) is Some,
    ensures
        spec_ray_color_along(objects, ray, directions) == Ok::<RGBColor, GeometryError>(
            RGBColor::spec_zeros(),
        ),
{
    let rec = spec_nearest_hit(objects, &ray, spec_epsilon(), Scalar::spec_max())->Some_0;
    let next = spec_scatter_ray(rec, directions[0]);
    assert(directions.skip(1).len() == 0);
    assert(spec_ray_color_along(objects, next, directions.skip(1)) == Ok::<
        RGBColor,
        GeometryError,
    >(RGBColor::spec_zeros()));
    assert(0int * 500_000_000 == 0) by (nonlinear_arith);
    crate::scalar::lemma_raw_injective(
        Scalar::spec_zero().spec_mul(spec_half()),
        Scalar::spec_zero(),
    );
}

/// The color along `ray` with at most `depth` bounces, the scatter
/// directions drawn by the sampler. It is what `ray_color_along` gives for
/// the directions that were drawn; it is black without a budget, and with a
/// budget of one where the ray hits; it is the color of the sky where the
/// ray hits nothing; and its channels are ordered between black and white.
/// The only error is that of a ray without direction.
pub fn ray_color<H: Hittable>(
    ray: &Ray3D,
    scene: &Scene<H>,
    depth: i32,
    rng: &mut fastrand::Rng,
) -> (r: Result<RGBColor, GeometryError>)
    ensures
        depth <= 0 ==> r == Ok::<RGBColor, GeometryError>(RGBColor::spec_zeros()),
        depth > 0 && spec_nearest_hit(scene@, ray, spec_epsilon(), Scalar::spec_max()) is None
            ==> r == spec_gradient(*ray),
        depth == 1 && spec_nearest_hit(scene@, ray, spec_epsilon(), Scalar::spec_max()) is Some
            ==> r == Ok::<RGBColor, GeometryError>(RGBColor::spec_zeros()),
        exists|directions: Seq<Vector3D>|
            {
                &&& directions.len() == (if depth > 0 {
                    depth as int
                } else {
                    0
                })
                &&& forall|i: int|
                    0 <= i < directions.len() ==> is_sample(#[trigger] directions[i])
                &&& r == spec_ray_color_along(scene@, *ray, directions)
            },
        r matches Ok(c) ==> spec_ordered(c),
        r matches Err(e) ==> e == GeometryError::ZeroNorm,
    decreases depth,
{
    proof {
        use_type_invariant(&ray.direction.x);
        use_type_invariant(&ray.direction.y);
        use_type_invariant(&ray.direction.z);
    }
    // Once the bounce budget is spent, no more light is gathered.
    if depth <= 0 {
        proof {
            let none = Seq::<Vector3D>::empty();
            assert(Ok::<RGBColor, GeometryError>(RGBColor::spec_zeros()) == spec_ray_color_along(
                scene@,
                *ray,
                none,
            ));
        }
        return Ok(RGBColor::zeros());
    }
    let mut hit_record = HitRecord::default();
    if scene.hit(ray, Scalar::from_raw(100_000), Scalar::max_value(), &mut hit_record) {
        let unit = random_uniform_unit_sphere_point(rng);
        let next = scatter_ray(&hit_record, unit);
        let inner = ray_color(&next, scene, depth - 1, rng);
        let r = match inner {
            // Half the energy is absorbed on each bounce.
            Ok(c) => Ok(c * half()),
            Err(e) => Err(e),
        };
        proof {
            let rest = choose|directions: Seq<Vector3D>|
                {
                    &&& directions.len() == depth - 1
                    &&& forall|i: int|
                        0 <= i < directions.len() ==> is_sample(#[trigger] directions[i])
                    &&& inner == spec_ray_color_along(scene@, next, directions)
                };
            let all = seq![unit] + rest;
            assert(all.skip(1) =~= rest);
            assert(all[0] == unit);
            assert forall|i: int| 0 <= i < all.len() implies is_sample(#[trigger] all[i]) by {
                if i > 0 {
                    assert(all[i] == rest[i - 1]);
                }
            }
            assert(r == spec_ray_color_along(scene@, *ray, all));
            lemma_ray_color_along_ordered(scene@, *ray, all);
            if depth == 1 {
                lemma_one_bounce_is_black(scene@, *ray, all);
            }
        }
        r
    } else {
        let r = crate::math::ray_color(ray);
        proof {
            let all = Seq::new(depth as nat, |i: int| spec_fallback_direction());
            assert(r == spec_ray_color_along(scene@, *ray, all));
        }
        r
    }
}

/// Where a pixel lies along one side of the image: `(index + jitter) / last`,
/// where `last` is the number of pixels on that side less one.
pub open spec fn spec_pixel_fraction(index: int, jitter: Scalar, last: int) -> Scalar {
    Scalar::spec_from_int(index).spec_add(jitter).spec_div(Scalar::spec_from_int(last))
}

/// The jittered position of a pixel along one side of the image, between
/// zero and one where the jitter is a fraction; an image of one pixel
/// across has no such position.
pub fn pixel_fraction(index: u32, jitter: Scalar, last: u32) -> (r: Result<Scalar, GeometryError>)
    ensures
        last == 0 ==> r == Err::<Scalar, GeometryError>(GeometryError::DegenerateImage),
        last > 0 ==> r == Ok::<Scalar, GeometryError>(
            spec_pixel_fraction(index as int, jitter, last as int),
        ),
{
    if last == 0 {
        Err(GeometryError::DegenerateImage)
    } else {
        let divisor = Scalar::from_int(last as i64);
        assert(divisor.raw() == last * SCALE) by {
            assert(0 < last * SCALE <= 4_294_967_295 * SCALE) by (nonlinear_arith)
                requires
                    0 < last <= 4_294_967_295,
                    SCALE == 1_000_000_000,
            ;
        }
        Ok((Scalar::from_int(index as i64) + jitter) / divisor)
    }
}

/// The largest channel value that is encoded, just below one.
pub open spec fn spec_channel_ceiling() -> Scalar {
    Scalar::spec_from_raw(999_000_000)
}

/// The 8-bit value of a channel summed over `samples` samples: the mean,
/// gamma-corrected by a square root, clamped to `[0, 0.999]`, times 256,
/// rounded down. A negative mean counts as zero.
pub open spec fn spec_encode_channel(sum: Scalar, samples: int) -> int {
    let scale = Scalar::spec_one().spec_div(Scalar::spec_from_int(samples));
    let mean = scale.spec_mul(sum);
    let gamma = if mean.raw() < 0 {
        Scalar::spec_zero()
    } else {
        mean.spec_sqrt()
    };
    let clamped = Scalar::spec_clamp(gamma, Scalar::spec_zero(), spec_channel_ceiling());
    trunc_div(Scalar::spec_from_int(256).spec_mul(clamped).raw(), SCALE as int)
}

fn encode_channel(sum: Scalar, scale: Scalar, samples: Ghost<int>) -> (v: i32)
    requires
        scale == Scalar::spec_one().spec_div(Scalar::spec_from_int(samples@)),
    ensures
        v == spec_encode_channel(sum, samples@),
        0 <= v <= 255,
{
    let mean = scale * sum;
    let gamma = match mean.sqrt() {
        Some(root) => root,
        None => Scalar::zero(),
    };
    let clamped = clamp(gamma, Scalar::zero(), Scalar::from_raw(999_000_000));
    let scaled = Scalar::from_int(256) * clamped;
    proof {
        let c = clamped.raw();
        assert(0 <= c <= 999_000_000);
        assert(Scalar::spec_from_int(256).raw() == 256_000_000_000);
        assert(0 <= 256_000_000_000 * c <= 256_000_000_000 * 999_000_000) by (nonlinear_arith)
            requires
                0 <= c <= 999_000_000,
        ;
        assert(0 <= (256_000_000_000 * c) / 1_000_000_000 <= 255_744_000_000) by (nonlinear_arith)
            requires
                0 <= 256_000_000_000 * c <= 256_000_000_000 * 999_000_000,
        ;
    }
    scaled.to_int() as i32
}

/// The three 8-bit channel values of a color summed over
/// `samples_per_pixel` samples; nothing where there are no samples.
pub fn encode_color(color_sum: RGBColor, samples_per_pixel: u32) -> (r: Option<(i32, i32, i32)>)
    ensures
        samples_per_pixel == 0 ==> r.is_none(),
        samples_per_pixel > 0 ==> r == Some(
            (
                spec_encode_channel(color_sum.R, samples_per_pixel as int) as i32,
                spec_encode_channel(color_sum.G, samples_per_pixel as int) as i32,
                spec_encode_channel(color_sum.B, samples_per_pixel as int) as i32,
            ),
        ),
        r matches Some(v) ==> 0 <= v.0 <= 255 && 0 <= v.1 <= 255 && 0 <= v.2 <= 255,
{
    if samples_per_pixel == 0 {
        return None;
    }
    let scale = Scalar::one() / Scalar::from_int(samples_per_pixel as i64);
    let n: Ghost<int> = Ghost(samples_per_pixel as int);
    Some(
        (
            encode_channel(color_sum.R, scale, n),
            encode_channel(color_sum.G, scale, n),
            encode_channel(color_sum.B, scale, n),
        ),
    )
}

/// The ratio of a half turn to 180 degrees uses this value of pi, rounded to
/// a billionth.
pub open spec fn spec_pi() -> Scalar {
    Scalar::spec_from_raw(3_141_592_654)
}

/// `degrees * pi / 180`.
pub fn degrees_to_radians(degrees: Scalar) -> (radians: Scalar)
    ensures
        radians == degrees.spec_mul(spec_pi()).spec_div(Scalar::spec_from_int(180)),
{
    degrees * Scalar::from_raw(3_141_592_654) / Scalar::from_int(180)
}

/// `x` limited to the interval from `min` to `max`.
pub fn clamp(x: Scalar, min: Scalar, max: Scalar) -> (r: Scalar)
    ensures
        r == Scalar::spec_clamp(x, min, max),
{
    if x < min {
        min
    } else if x > max {
        max
    } else {
        x
    }
}

} // verus!
