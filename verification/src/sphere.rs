//! Spheres, the one shape that rays are tested against.

use vstd::prelude::*;
use core::ops::Neg;
use crate::error::GeometryError;
use crate::exact::{
    exact_roots, is_ordinary, lemma_exact_roots_ordered, spec_exact_roots, spec_ordinary,
};
use crate::fixed::{lemma_int_sqrt_exists, lemma_trunc_div_monotone, SCALE};
use crate::hittable::{lemma_facing_normal_opposes, HitRecord, Hittable};
use crate::ray::Ray3D;
use crate::scalar::{lemma_raw_of_from_raw, Scalar};
use crate::vector::{lemma_dot_self_nonneg, lemma_stretch_positive, Vector3D, VectorOperations};

verus! {

broadcast use lemma_raw_of_from_raw;

/// A sphere with a positive radius.
#[derive(Clone, Copy, Debug)]
pub struct Sphere {
    center: Vector3D,
    radius: Scalar,
}

/// The quantities of the quadratic `a t^2 + 2 half_b t + c = 0` whose roots
/// are the ray parameters at which the ray crosses the sphere.
pub struct Quadratic {
    pub a: Scalar,
    pub half_b: Scalar,
    pub c: Scalar,
}

impl Quadratic {
    /// `half_b^2 - a c`.
    pub open spec fn discriminant(self) -> Scalar {
        self.half_b.spec_mul(self.half_b).spec_sub(self.a.spec_mul(self.c))
    }

    /// The smaller root, `(-half_b - sqrt(discriminant)) / a`.
    pub open spec fn near_root(self) -> Scalar {
        self.half_b.spec_neg().spec_sub(self.discriminant().spec_sqrt()).spec_div(self.a)
    }

    /// The larger root, `(-half_b + sqrt(discriminant)) / a`.
    pub open spec fn far_root(self) -> Scalar {
        self.half_b.spec_neg().spec_add(self.discriminant().spec_sqrt()).spec_div(self.a)
    }

    /// Whether the quadratic has real roots at all: the ray has a direction
    /// and the discriminant is not negative.
    pub open spec fn solvable(self) -> bool {
        self.a.raw() != 0 && self.discriminant().raw() >= 0
    }
}

/// Where the quadratic has roots and its leading coefficient is positive,
/// the smaller root is not larger than the larger root.
pub proof fn lemma_roots_ordered(q: Quadratic)
    requires
        q.a.raw() > 0,
        q.discriminant().raw() >= 0,
    ensures
        q.near_root().raw() <= q.far_root().raw(),
{
    let s = q.discriminant().spec_sqrt();
    assert(q.discriminant().raw() * SCALE >= 0) by (nonlinear_arith)
        requires
            q.discriminant().raw() >= 0,
            SCALE > 0,
    ;
    lemma_int_sqrt_exists(q.discriminant().raw() * SCALE);
    assert(s.raw() >= 0);
    let low = q.half_b.spec_neg().spec_sub(s);
    let high = q.half_b.spec_neg().spec_add(s);
    assert(low.raw() <= high.raw());
    assert(low.raw() * SCALE <= high.raw() * SCALE) by (nonlinear_arith)
        requires
            low.raw() <= high.raw(),
            SCALE > 0,
    ;
    lemma_trunc_div_monotone(low.raw() * SCALE, high.raw() * SCALE, q.a.raw());
}

/// Whether `t` lies strictly inside the window `(t_min, t_max)`.
pub open spec fn in_window(t: Scalar, t_min: Scalar, t_max: Scalar) -> bool {
    t_min.raw() < t.raw() < t_max.raw()
}

impl Sphere {
    pub closed spec fn center(self) -> Vector3D {
        self.center
    }

    pub closed spec fn radius(self) -> Scalar {
        self.radius
    }

    /// Validity: the radius is positive.
    #[verifier::type_invariant]
    pub open spec fn wf(self) -> bool {
        self.center().wf() && self.radius().wf() && self.radius().raw() > 0
    }

    /// The sphere with the given center and radius; a radius that is not
    /// positive is refused.
    pub fn new(center: Vector3D, radius: Scalar) -> (r: Result<Sphere, GeometryError>)
        ensures
            radius.raw() <= 0 ==> r == Err::<Sphere, GeometryError>(
                GeometryError::NonPositiveRadius,
            ),
            radius.raw() > 0 ==> r is Ok && r->Ok_0.center() == center && r->Ok_0.radius()
                == radius && r->Ok_0.wf(),
    {
        proof {
            use_type_invariant(&center.x);
            use_type_invariant(&center.y);
            use_type_invariant(&center.z);
            use_type_invariant(&radius);
        }
        if radius <= Scalar::zero() {
            Err(GeometryError::NonPositiveRadius)
        } else {
            Ok(Sphere { center, radius })
        }
    }

    pub fn get_center(&self) -> (c: Vector3D)
        ensures
            c == self.center(),
    {
        self.center
    }

    pub fn get_radius(&self) -> (r: Scalar)
        ensures
            r == self.radius(),
            r.raw() > 0,
    {
        proof {
            use_type_invariant(self);
        }
        self.radius
    }

    /// The quadratic for this sphere and `ray`: with `oc = origin - center`
    /// and `d` the stretched direction, `a = d.d`, `half_b = oc.d` and
    /// `c = oc.oc - radius^2`. Stretching the direction by a whole factor
    /// leaves the line of the ray as it is and divides its parameters by
    /// the factor; it keeps the coefficients of a short direction from
    /// being lost to rounding.
    pub open spec fn spec_quadratic(self, ray: Ray3D) -> Quadratic {
        let oc = ray.origin.spec_sub(self.center());
        let d = ray.direction.spec_stretched();
        Quadratic {
            a: d.spec_dot(d),
            half_b: oc.spec_dot(d),
            c: oc.spec_dot(oc).spec_sub(self.radius().spec_mul(self.radius())),
        }
    }

    /// The normal of the sphere at `point`, pointing away from the center:
    /// `(point - center) / radius`.
    pub open spec fn spec_outward_normal(self, point: Vector3D) -> Vector3D {
        point.spec_sub(self.center()).spec_div(self.radius())
    }

    /// The record of the crossing at ray parameter `t`.
    pub open spec fn spec_record_at(self, ray: Ray3D, t: Scalar) -> HitRecord {
        let point = ray.spec_at(t);
        let outward = self.spec_outward_normal(point);
        HitRecord {
            point,
            normal_vector: HitRecord::spec_facing_normal(ray.direction, outward),
            t,
            front_face: HitRecord::spec_front_face(ray.direction, outward),
        }
    }

    /// The two roots of the quadratic for the stretched direction, smaller
    /// first, if it has any. For a sphere and a ray of ordinary size they
    /// are formed from exact coefficients and rounded once; beyond that
    /// size they are formed from the rounded coefficients. A ray whose
    /// direction is the zero vector has none.
    pub open spec fn spec_roots(self, ray: Ray3D) -> Option<(Scalar, Scalar)> {
        let d = ray.direction.spec_stretched();
        if spec_ordinary(ray.origin, d, self.center(), self.radius()) {
            spec_exact_roots(ray.origin, d, self.center(), self.radius())
        } else {
            let q = self.spec_quadratic(ray);
            if q.solvable() {
                Some((q.near_root(), q.far_root()))
            } else {
                None
            }
        }
    }

    /// The ray parameter of the crossing that `hit` reports: the smaller
    /// root times the stretch factor where that lies in the window, else
    /// the larger root times the stretch factor where that one does, else
    /// none.
    pub open spec fn spec_hit_parameter(self, ray: Ray3D, t_min: Scalar, t_max: Scalar) -> Option<
        Scalar,
    > {
        let k = ray.direction.spec_stretch();
        match self.spec_roots(ray) {
            None => None,
            Some(roots) => if in_window(roots.0.spec_times(k), t_min, t_max) {
                Some(roots.0.spec_times(k))
            } else if in_window(roots.1.spec_times(k), t_min, t_max) {
                Some(roots.1.spec_times(k))
            } else {
                None
            },
        }
    }

    /// The record of the crossing that `hit` reports, if there is one.
    pub open spec fn spec_first_hit(self, ray: Ray3D, t_min: Scalar, t_max: Scalar) -> Option<
        HitRecord,
    > {
        match self.spec_hit_parameter(ray, t_min, t_max) {
            Some(t) => Some(self.spec_record_at(ray, t)),
            None => None,
        }
    }

    fn roots(&self, ray: &Ray3D) -> (r: Option<(Scalar, Scalar)>)
        ensures
            r == self.spec_roots(*ray),
    {
        let d = ray.direction.stretched();
        if is_ordinary(&ray.origin, &d, &self.center, self.radius) {
            exact_roots(&ray.origin, &d, &self.center, self.radius)
        } else {
            let q = self.quadratic(ray);
            let discriminant = q.half_b * q.half_b - q.a * q.c;
            if q.a.is_zero() || discriminant < Scalar::zero() {
                None
            } else {
                let d_sqrt = discriminant.sqrt_of_nonneg();
                Some(((q.half_b.neg() - d_sqrt) / q.a, (q.half_b.neg() + d_sqrt) / q.a))
            }
        }
    }

    fn quadratic(&self, ray: &Ray3D) -> (q: Quadratic)
        ensures
            q == self.spec_quadratic(*ray),
    {
        let oc: Vector3D = ray.origin - self.center;
        let d: Vector3D = ray.direction.stretched();
        let a: Scalar = d.inner_product(&d);
        let b_half: Scalar = oc.inner_product(&d);
        let c: Scalar = oc.inner_product(&oc) - self.radius * self.radius;
        Quadratic { a, half_b: b_half, c }
    }

    /// Whether the line of the ray meets the sphere, wherever along the line.
    pub fn is_hit(&self, ray: &Ray3D) -> (r: bool)
        ensures
            r == self.spec_roots(*ray).is_some(),
    {
        self.roots(ray).is_some()
    }

    /// Where the line of the ray first meets the sphere.
    pub open spec fn spec_is_hit_at(self, ray: Ray3D) -> Scalar {
        match self.spec_roots(ray) {
            Some(roots) => roots.0.spec_times(ray.direction.spec_stretch()),
            None => Scalar::spec_from_int(-1),
        }
    }

    /// The ray parameter at which the line of the ray first meets the
    /// sphere, or minus one where it does not. The parameter may be
    /// negative: the crossing then lies behind the origin.
    pub fn is_hit_at(&self, ray: &Ray3D) -> (t: Scalar)
        ensures
            t == self.spec_is_hit_at(*ray),
    {
        match self.roots(ray) {
            Some(roots) => roots.0.times(ray.direction.stretch()),
            None => Scalar::from_int(-1),
        }
    }
}

impl Hittable for Sphere {
    open spec fn spec_hit(&self, ray: &Ray3D, t_min: Scalar, t_max: Scalar) -> Option<HitRecord> {
        self.spec_first_hit(*ray, t_min, t_max)
    }

    proof fn lemma_hit_protocol(&self, ray: &Ray3D, t_min: Scalar, t_max: Scalar) {
        match self.spec_hit_parameter(*ray, t_min, t_max) {
            Some(t) => {
                let outward = self.spec_outward_normal(ray.spec_at(t));
                lemma_facing_normal_opposes(ray.direction, outward);
            },
            None => {},
        }
    }

    proof fn lemma_hit_window(&self, ray: &Ray3D, t_min: Scalar, t_max: Scalar, t_cut: Scalar) {
        let q = self.spec_quadratic(*ray);
        let d = ray.direction.spec_stretched();
        lemma_stretch_positive(ray.direction);
        if spec_ordinary(ray.origin, d, self.center(), self.radius()) {
            lemma_exact_roots_ordered(ray.origin, d, self.center(), self.radius());
        } else if q.solvable() {
            lemma_dot_self_nonneg(d);
            lemma_roots_ordered(q);
        }
        match self.spec_roots(*ray) {
            Some(roots) => {
                let k = ray.direction.spec_stretch();
                assert(roots.0.raw() * k <= roots.1.raw() * k) by (nonlinear_arith)
                    requires
                        roots.0.raw() <= roots.1.raw(),
                        k >= 1,
                ;
            },
            None => {},
        }
    }

    fn hit(&self, ray: &Ray3D, t_min: Scalar, t_max: Scalar, hit_record: &mut HitRecord) -> (hit:
        bool)
        ensures
            hit && spec_ordinary(ray.origin, ray.direction, self.center(), self.radius())
                && crate::accuracy::spec_within_reach(*ray, final(hit_record).t)
                ==> crate::fixed::abs(
                crate::accuracy::spec_squared_distance(*self, final(hit_record).point)
                    - self.radius().raw() * self.radius().raw(),
            ) <= crate::accuracy::spec_distance_tolerance(
                crate::accuracy::spec_discriminant_root(*self, *ray),
                crate::accuracy::spec_spread(*self, final(hit_record).point),
            ),
    {
        proof {
            use_type_invariant(self);
            self.lemma_hit_protocol(ray, t_min, t_max);
            if self.spec_first_hit(*ray, t_min, t_max) matches Some(rec) && spec_ordinary(
                ray.origin,
                ray.direction,
                self.center(),
                self.radius(),
            ) && crate::accuracy::spec_within_reach(*ray, rec.t) {
                crate::accuracy::lemma_hit_lies_on_sphere(*self, *ray, t_min, t_max);
            }
        }
        let stretch = ray.direction.stretch();
        let roots = match self.roots(ray) {
            // No direction, or a negative discriminant: the ray misses.
            None => {
                return false;
            },
            Some(roots) => roots,
        };
        // The nearest root inside the window.
        let mut root = roots.0.times(stretch);
        if !(t_min < root && root < t_max) {
            root = roots.1.times(stretch);
            if !(t_min < root && root < t_max) {
                return false;
            }
        }
        hit_record.set_t(root);
        let ray_at = ray.at(root);
        hit_record.set_point(ray_at);
        let outwards_normal = (ray_at - self.center) / self.radius;
        hit_record.set_normal_vector(outwards_normal);
        hit_record.set_face_normal(ray, &outwards_normal);
        true
    }
}

} // verus!
