//! A recursive ray tracer for scenes of spheres, computed in fixed-point
//! arithmetic and verified.
//!
//! Every real number is a [`scalar::Scalar`]: a count of billionths whose
//! operations round toward zero and saturate, so that each of them is a
//! total function with an exact meaning in integers. On top of it stand
//! vectors, rays, the intersection protocol with spheres and scenes, the
//! camera, and the color integrator. Random numbers come from generators
//! that the caller creates and passes in.
//!
//! Sums of products are formed exactly and rounded once. A vector is
//! stretched by a whole factor before it is normalized, and a ray's
//! direction before it is tested against a sphere, so that short vectors
//! lose nothing to the rounding; and for spheres and rays of ordinary size
//! the roots of the intersection come from exact coefficients. The module
//! [`accuracy`] states how close the results are.

pub mod accuracy;
pub mod camera;
pub mod color;
pub mod error;
pub mod exact;
pub mod fixed;
pub mod hittable;
pub mod math;
pub mod random;
pub mod ray;
pub mod scalar;
pub mod scene;
pub mod sphere;
pub mod utilities;
pub mod vector;
