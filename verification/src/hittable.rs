//! The ray-surface intersection protocol.

use vstd::prelude::*;
use crate::color::RGBColor;
use crate::fixed::{lemma_trunc_div_cancel, lemma_trunc_div_neg, SCALE};
use crate::ray::Ray3D;
use crate::scalar::{lemma_raw_of_from_raw, Scalar};
use crate::vector::{Vector3D, VectorOperations};

verus! {

broadcast use lemma_raw_of_from_raw;

/// What is known of one intersection of a ray with a surface.
#[derive(Clone, Copy, Debug, PartialEq, Eq, Structural)]
pub struct HitRecord {
    /// Where the ray meets the surface.
    pub point: Vector3D,
    /// The surface normal there, turned to face the incoming ray.
    pub normal_vector: Vector3D,
    /// The ray parameter of the intersection.
    pub t: Scalar,
    /// Whether the ray arrives from outside the surface.
    pub front_face: bool,
}

impl HitRecord {
    /// Validity: every scalar in the record is valid.
    pub open spec fn wf(self) -> bool {
        self.point.wf() && self.normal_vector.wf() && self.t.wf()
    }

    /// The record before anything was stored in it.
    pub open spec fn spec_default() -> HitRecord {
        HitRecord {
            point: Vector3D::spec_zeros(),
            normal_vector: Vector3D::spec_zeros(),
            t: Scalar::spec_zero(),
            front_face: false,
        }
    }

    /// Whether a ray in `direction` reaches a surface with this outward
    /// normal from outside.
    pub open spec fn spec_front_face(direction: Vector3D, outwards_normal: Vector3D) -> bool {
        direction.spec_dot(outwards_normal).raw() < 0
    }

    /// The outward normal, flipped where needed so that it opposes
    /// `direction`.
    pub open spec fn spec_facing_normal(
        direction: Vector3D,
        outwards_normal: Vector3D,
    ) -> Vector3D {
        if HitRecord::spec_front_face(direction, outwards_normal) {
            outwards_normal
        } else {
            outwards_normal.spec_neg()
        }
    }

    /// Records on which side the ray arrives, and stores the normal so that
    /// it never points along the ray.
    pub fn set_face_normal(&mut self, ray: &Ray3D, outwards_normal: &Vector3D)
        ensures
            final(self).front_face == HitRecord::spec_front_face(ray.direction, *outwards_normal),
            final(self).normal_vector == HitRecord::spec_facing_normal(
                ray.direction,
                *outwards_normal,
            ),
            final(self).point == old(self).point,
            final(self).t == old(self).t,
            ray.direction.spec_dot(final(self).normal_vector).raw() <= 0,
    {
        proof {
            use_type_invariant(&outwards_normal.x);
            use_type_invariant(&outwards_normal.y);
            use_type_invariant(&outwards_normal.z);
            lemma_facing_normal_opposes(ray.direction, *outwards_normal);
            lemma_scale_by_minus_one(*outwards_normal);
        }
        self.front_face = ray.direction.inner_product(outwards_normal) < Scalar::zero();
        self.normal_vector = if self.front_face {
            *outwards_normal
        } else {
            *outwards_normal * Scalar::from_int(-1)
        };
    }

    pub fn get_point(&self) -> (p: Vector3D)
        ensures
            p == self.point,
    {
        self.point
    }

    pub fn get_normal_vector(&self) -> (n: Vector3D)
        ensures
            n == self.normal_vector,
    {
        self.normal_vector
    }

    pub fn get_t(&self) -> (t: Scalar)
        ensures
            t == self.t,
    {
        self.t
    }

    pub fn get_front_face(&self) -> (f: bool)
        ensures
            f == self.front_face,
    {
        self.front_face
    }

    pub fn set_point(&mut self, point: Vector3D)
        ensures
            *final(self) == (HitRecord { point, ..*old(self) }),
    {
        self.point = point;
    }

    pub fn set_normal_vector(&mut self, normal_vector: Vector3D)
        ensures
            *final(self) == (HitRecord { normal_vector, ..*old(self) }),
    {
        self.normal_vector = normal_vector;
    }

    pub fn set_t(&mut self, t: Scalar)
        ensures
            *final(self) == (HitRecord { t, ..*old(self) }),
    {
        self.t = t;
    }
}

impl Default for HitRecord {
    fn default() -> (r: HitRecord)
        ensures
            r == HitRecord::spec_default(),
    {
        HitRecord {
            point: Vector3D::default(),
            normal_vector: Vector3D::default(),
            t: Scalar::default(),
            front_face: false,
        }
    }
}

/// Multiplying a valid vector by minus one negates it.
pub proof fn lemma_scale_by_minus_one(v: Vector3D)
    requires
        v.wf(),
    ensures
        v.spec_scale(Scalar::spec_from_int(-1)) == v.spec_neg(),
{
    lemma_scalar_times_minus_one(v.x);
    lemma_scalar_times_minus_one(v.y);
    lemma_scalar_times_minus_one(v.z);
}

proof fn lemma_scalar_times_minus_one(x: Scalar)
    requires
        x.wf(),
    ensures
        x.spec_mul(Scalar::spec_from_int(-1)) == x.spec_neg(),
{
    let m = Scalar::spec_from_int(-1);
    assert(m.raw() == -SCALE);
    assert(x.raw() * m.raw() == (-x.raw()) * SCALE) by (nonlinear_arith)
        requires
            m.raw() == -SCALE,
    ;
    lemma_trunc_div_cancel(-x.raw(), SCALE as int);
}

/// Negating the second factor negates a dot product.
pub proof fn lemma_dot_neg(d: Vector3D, n: Vector3D)
    requires
        n.wf(),
    ensures
        d.spec_dot(n.spec_neg()).raw() == -d.spec_dot(n).raw(),
{
    let m = n.spec_neg();
    assert(d.x.raw() * (-n.x.raw()) == -(d.x.raw() * n.x.raw())) by (nonlinear_arith);
    assert(d.y.raw() * (-n.y.raw()) == -(d.y.raw() * n.y.raw())) by (nonlinear_arith);
    assert(d.z.raw() * (-n.z.raw()) == -(d.z.raw() * n.z.raw())) by (nonlinear_arith);
    assert(d.spec_exact_dot(m) == -d.spec_exact_dot(n));
    lemma_trunc_div_neg(d.spec_exact_dot(n), SCALE as int);
}

/// The stored normal always opposes the incoming ray: its dot product with
/// the ray's direction is never positive.
pub proof fn lemma_facing_normal_opposes(direction: Vector3D, outwards_normal: Vector3D)
    requires
        outwards_normal.wf(),
    ensures
        direction.spec_dot(HitRecord::spec_facing_normal(direction, outwards_normal)).raw() <= 0,
{
    lemma_dot_neg(direction, outwards_normal);
}

/// What is left of an intersection when the window is cut off at `t_cut`:
/// the intersection itself where it lies before the cut, else nothing.
pub open spec fn spec_before(found: Option<HitRecord>, t_cut: Scalar) -> Option<HitRecord> {
    match found {
        Some(rec) => if rec.t.raw() < t_cut.raw() {
            Some(rec)
        } else {
            None
        },
        None => None,
    }
}

/// A surface that a ray can be tested against.
pub trait Hittable {
    /// The intersection that `hit` reports for the ray within the open
    /// window `(t_min, t_max)`, if there is one.
    spec fn spec_hit(&self, ray: &Ray3D, t_min: Scalar, t_max: Scalar) -> Option<HitRecord>;

    /// A reported intersection lies strictly inside the window, its point is
    /// the point of the ray at its parameter, and its normal opposes the
    /// ray.
    proof fn lemma_hit_protocol(&self, ray: &Ray3D, t_min: Scalar, t_max: Scalar)
        ensures
            self.spec_hit(ray, t_min, t_max) matches Some(rec) ==> {
                &&& t_min.raw() < rec.t.raw() < t_max.raw()
                &&& rec.point == ray.spec_at(rec.t)
                &&& ray.direction.spec_dot(rec.normal_vector).raw() <= 0
            },
    ;

    /// Lowering the upper end of the window only cuts intersections off: in
    /// the smaller window the surface reports the same intersection where it
    /// lies before the cut, and none else.
    proof fn lemma_hit_window(&self, ray: &Ray3D, t_min: Scalar, t_max: Scalar, t_cut: Scalar)
        requires
            t_cut.raw() <= t_max.raw(),
        ensures
            self.spec_hit(ray, t_min, t_cut) == spec_before(
                self.spec_hit(ray, t_min, t_max),
                t_cut,
            ),
    ;

    /// Tests the ray against the surface. On a hit the record is
    /// overwritten with the intersection, which lies strictly inside the
    /// window and whose normal opposes the ray; on a miss the record is left
    /// untouched.
    fn hit(&self, ray: &Ray3D, t_min: Scalar, t_max: Scalar, hit_record: &mut HitRecord) -> (hit:
        bool)
        ensures
            hit == self.spec_hit(ray, t_min, t_max).is_some(),
            hit ==> Some(*final(hit_record)) == self.spec_hit(ray, t_min, t_max),
            !hit ==> *final(hit_record) == *old(hit_record),
            hit ==> t_min.raw() < final(hit_record).t.raw() < t_max.raw(),
            hit ==> final(hit_record).point == ray.spec_at(final(hit_record).t),
            hit ==> ray.direction.spec_dot(final(hit_record).normal_vector).raw() <= 0,
    ;
}

/// How a surface answers an incoming ray.
pub trait Material {
    /// The attenuation and the scattered ray, where the material scatters.
    spec fn spec_scatter(&self, ray_in: &Ray3D, rec: &HitRecord) -> Option<(RGBColor, Ray3D)>;

    /// On scattering, stores the attenuation and the scattered ray; else
    /// leaves both untouched.
    fn scatter(
        &self,
        ray_in: &Ray3D,
        rec: &HitRecord,
        attenuation: &mut RGBColor,
        scattered: &mut Ray3D,
    ) -> (scatters: bool)
        ensures
            scatters == self.spec_scatter(ray_in, rec).is_some(),
            scatters ==> Some((*final(attenuation), *final(scattered))) == self.spec_scatter(
                ray_in,
                rec,
            ),
            !scatters ==> *final(attenuation) == *old(attenuation) && *final(scattered) == *old(
                scattered,
            ),
    ;
}

/// The material that scatters nothing.
#[derive(Clone, Copy, Debug, PartialEq, Eq, Structural)]
pub struct NoMaterial;

impl Material for NoMaterial {
    open spec fn spec_scatter(&self, ray_in: &Ray3D, rec: &HitRecord) -> Option<
        (RGBColor, Ray3D),
    > {
        None
    }

    fn scatter(
        &self,
        _ray_in: &Ray3D,
        _rec: &HitRecord,
        _attenuation: &mut RGBColor,
        _scattered: &mut Ray3D,
    ) -> (scatters: bool) {
        false
    }
}

} // verus!
