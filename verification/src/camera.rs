//! The pinhole camera: from a position on the image plane to a ray.

use vstd::prelude::*;
use crate::error::GeometryError;
use crate::fixed::{lemma_trunc_div_common_factor, trunc_div, SCALE};
use crate::ray::Ray3D;
use crate::scalar::{lemma_raw_of_from_raw, Scalar};
use crate::vector::Vector3D;

verus! {

broadcast use lemma_raw_of_from_raw;

/// An axis-aligned camera looking along the negative z axis. The derived
/// fields are computed once by `new` and never change.
#[derive(Clone, Copy, Debug)]
pub struct Camera {
    aspect_ratio: Scalar,
    viewport_height: Scalar,
    viewport_width: Scalar,
    focal_length: Scalar,
    origin: Vector3D,
    horizontal: Vector3D,
    vertical: Vector3D,
    lower_left_corner: Vector3D,
}

/// The vector along the x axis with the given length.
pub open spec fn spec_along_x(length: Scalar) -> Vector3D {
    Vector3D { x: length, y: Scalar::spec_zero(), z: Scalar::spec_zero() }
}

/// The vector along the y axis with the given length.
pub open spec fn spec_along_y(length: Scalar) -> Vector3D {
    Vector3D { x: Scalar::spec_zero(), y: length, z: Scalar::spec_zero() }
}

/// The vector along the z axis with the given length.
pub open spec fn spec_along_z(length: Scalar) -> Vector3D {
    Vector3D { x: Scalar::spec_zero(), y: Scalar::spec_zero(), z: length }
}

/// The lower left corner of the viewport:
/// `origin - horizontal/2 - vertical/2 - (0, 0, focal_length)`.
pub open spec fn spec_lower_left_corner(
    origin: Vector3D,
    horizontal: Vector3D,
    vertical: Vector3D,
    focal_length: Scalar,
) -> Vector3D {
    origin.spec_sub(horizontal.spec_div(Scalar::spec_from_int(2))).spec_sub(
        vertical.spec_div(Scalar::spec_from_int(2)),
    ).spec_sub(spec_along_z(focal_length))
}

impl Camera {
    pub closed spec fn aspect_ratio(self) -> Scalar {
        self.aspect_ratio
    }

    pub closed spec fn viewport_height(self) -> Scalar {
        self.viewport_height
    }

    pub closed spec fn viewport_width(self) -> Scalar {
        self.viewport_width
    }

    pub closed spec fn focal_length(self) -> Scalar {
        self.focal_length
    }

    pub closed spec fn origin(self) -> Vector3D {
        self.origin
    }

    pub closed spec fn horizontal(self) -> Vector3D {
        self.horizontal
    }

    pub closed spec fn vertical(self) -> Vector3D {
        self.vertical
    }

    pub closed spec fn lower_left_corner(self) -> Vector3D {
        self.lower_left_corner
    }

    /// Validity: the viewport is not degenerate, and the derived fields are
    /// what the constructor's inputs determine. The width is the aspect
    /// ratio times the height.
    #[verifier::type_invariant]
    pub open spec fn wf(self) -> bool {
        &&& self.viewport_height().raw() > 0
        &&& self.aspect_ratio().raw() != 0
        &&& self.viewport_width() == self.aspect_ratio().spec_mul(self.viewport_height())
        &&& self.horizontal() == spec_along_x(self.viewport_width())
        &&& self.vertical() == spec_along_y(self.viewport_height())
        &&& self.lower_left_corner() == spec_lower_left_corner(
            self.origin(),
            self.horizontal(),
            self.vertical(),
            self.focal_length(),
        )
    }

    /// The camera for the given viewport; a viewport height that is not
    /// positive or an aspect ratio of zero is refused.
    pub fn new(
        aspect_ratio: Scalar,
        viewport_height: Scalar,
        focal_length: Scalar,
        origin: Vector3D,
    ) -> (r: Result<Camera, GeometryError>)
        ensures
            (viewport_height.raw() <= 0 || aspect_ratio.raw() == 0) ==> r == Err::<
                Camera,
                GeometryError,
            >(GeometryError::DegenerateCamera),
            (viewport_height.raw() > 0 && aspect_ratio.raw() != 0) ==> {
                &&& r is Ok
                &&& r->Ok_0.wf()
                &&& r->Ok_0.aspect_ratio() == aspect_ratio
                &&& r->Ok_0.viewport_height() == viewport_height
                &&& r->Ok_0.focal_length() == focal_length
                &&& r->Ok_0.origin() == origin
            },
    {
        if viewport_height <= Scalar::zero() || aspect_ratio.is_zero() {
            return Err(GeometryError::DegenerateCamera);
        }
        let viewport_width = aspect_ratio * viewport_height;
        let horizontal = Vector3D { x: viewport_width, y: Scalar::zero(), z: Scalar::zero() };
        let vertical = Vector3D { x: Scalar::zero(), y: viewport_height, z: Scalar::zero() };
        let depth = Vector3D { x: Scalar::zero(), y: Scalar::zero(), z: focal_length };
        let two = Scalar::from_int(2);
        let lower_left_corner = origin - horizontal / two - vertical / two - depth;
        Ok(
            Camera {
                aspect_ratio,
                viewport_height,
                viewport_width,
                focal_length,
                origin,
                horizontal,
                vertical,
                lower_left_corner,
            },
        )
    }

    /// The direction from the origin to the viewport position `(u, v)`:
    /// `lower_left_corner + horizontal * u + vertical * v - origin`.
    pub open spec fn spec_direction(self, u: Scalar, v: Scalar) -> Vector3D {
        self.lower_left_corner().spec_add(self.horizontal().spec_scale(u)).spec_add(
            self.vertical().spec_scale(v),
        ).spec_sub(self.origin())
    }

    /// The ray from the camera through the viewport position `(u, v)`, where
    /// `(0, 0)` is the lower left corner and `(1, 1)` the upper right one.
    pub fn get_ray(&self, u: Scalar, v: Scalar) -> (ray: Ray3D)
        ensures
            ray.origin == self.origin(),
            ray.direction == self.spec_direction(u, v),
    {
        Ray3D {
            origin: self.origin,
            direction: self.lower_left_corner + self.horizontal * u + self.vertical * v
                - self.origin,
        }
    }

    pub fn get_origin(&self) -> (o: Vector3D)
        ensures
            o == self.origin(),
    {
        self.origin
    }

    pub fn get_viewport_width(&self) -> (w: Scalar)
        ensures
            w == self.viewport_width(),
            w == self.aspect_ratio().spec_mul(self.viewport_height()),
    {
        proof {
            use_type_invariant(self);
        }
        self.viewport_width
    }

    pub fn get_lower_left_corner(&self) -> (c: Vector3D)
        ensures
            c == self.lower_left_corner(),
    {
        self.lower_left_corner
    }
}

/// The largest magnitude of the camera's origin, viewport and focal length
/// for which the center ray is stated, a billion: up to it nothing
/// saturates.
pub open spec fn spec_camera_limit() -> int {
    1_000_000_000_000_000_000
}

proof fn lemma_half_two_ways(w: Scalar)
    requires
        w.wf(),
    ensures
        w.spec_div(Scalar::spec_from_int(2)) == w.spec_mul(Scalar::spec_from_raw(500_000_000)),
        w.spec_div(Scalar::spec_from_int(2)).raw() == trunc_div(w.raw(), 2),
{
    lemma_trunc_div_common_factor(w.raw(), 2, SCALE as int);
    lemma_trunc_div_common_factor(w.raw(), 2, 500_000_000);
    assert(Scalar::spec_from_int(2).raw() == 2 * SCALE);
    assert(2 * 500_000_000 == SCALE);
    crate::scalar::lemma_raw_injective(
        w.spec_div(Scalar::spec_from_int(2)),
        w.spec_mul(Scalar::spec_from_raw(500_000_000)),
    );
}

/// The center of the image maps straight ahead: for a camera whose origin,
/// viewport and focal length are at most a billion, the ray through
/// `(0.5, 0.5)` has the direction `(0, 0, -focal_length)`.
pub proof fn lemma_center_ray(camera: Camera)
    requires
        camera.wf(),
        camera.origin().wf(),
        camera.focal_length().wf(),
        -spec_camera_limit() <= camera.origin().x.raw() <= spec_camera_limit(),
        -spec_camera_limit() <= camera.origin().y.raw() <= spec_camera_limit(),
        -spec_camera_limit() <= camera.origin().z.raw() <= spec_camera_limit(),
        -spec_camera_limit() <= camera.focal_length().raw() <= spec_camera_limit(),
        -spec_camera_limit() <= camera.viewport_width().raw() <= spec_camera_limit(),
        camera.viewport_height().raw() <= spec_camera_limit(),
    ensures
        camera.spec_direction(Scalar::spec_from_raw(500_000_000), Scalar::spec_from_raw(500_000_000))
            == spec_along_z(camera.focal_length().spec_neg()),
{
    let half = Scalar::spec_from_raw(500_000_000);
    let w = camera.viewport_width();
    let h = camera.viewport_height();
    let zero = Scalar::spec_zero();
    lemma_half_two_ways(w);
    lemma_half_two_ways(h);
    lemma_half_two_ways(zero);
    assert(trunc_div(0, 2) == 0);
    assert(zero.spec_mul(half).raw() == 0);
    let direction = camera.spec_direction(half, half);
    let expected = spec_along_z(camera.focal_length().spec_neg());
    assert(direction.x.raw() == 0);
    assert(direction.y.raw() == 0);
    assert(direction.z.raw() == -camera.focal_length().raw());
    crate::scalar::lemma_raw_injective(direction.x, expected.x);
    crate::scalar::lemma_raw_injective(direction.y, expected.y);
    crate::scalar::lemma_raw_injective(direction.z, expected.z);
}

} // verus!
