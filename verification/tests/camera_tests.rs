use raytracer::camera::Camera;
use raytracer::error::GeometryError;
use raytracer::scalar::Scalar;
use raytracer::vector::{Vector3D, VectorOperations};

fn s(x: f64) -> Scalar {
    Scalar::from_raw((x * 1e9).round() as i64)
}

fn v(x: f64, y: f64, z: f64) -> Vector3D {
    Vector3D { x: s(x), y: s(y), z: s(z) }
}

fn wide_camera() -> Camera {
    let aspect_ratio = Scalar::from_int(16) / Scalar::from_int(9);
    Camera::new(aspect_ratio, s(2.0), s(1.0), v(0.0, 0.0, 0.0)).unwrap()
}

#[test]
fn the_image_center_maps_straight_ahead() {
    let ray = wide_camera().get_ray(s(0.5), s(0.5));
    assert_eq!(ray.origin, v(0.0, 0.0, 0.0));
    assert_eq!(ray.direction.unit_vector(), Ok(v(0.0, 0.0, -1.0)));
}

#[test]
fn the_width_is_the_aspect_ratio_times_the_height() {
    let camera = wide_camera();
    assert_eq!(camera.get_viewport_width(), Scalar::from_raw(3_555_555_554));
    let narrow = Camera::new(s(0.5), s(3.0), s(1.0), v(0.0, 0.0, 0.0)).unwrap();
    assert_eq!(narrow.get_viewport_width(), s(1.5));
}

#[test]
fn the_lower_left_corner_is_derived_from_the_inputs() {
    let camera = wide_camera();
    assert_eq!(
        camera.get_lower_left_corner(),
        Vector3D { x: Scalar::from_raw(-1_777_777_777), y: s(-1.0), z: s(-1.0) }
    );
    let moved = Camera::new(s(2.0), s(1.0), s(0.5), v(1.0, 2.0, 3.0)).unwrap();
    assert_eq!(moved.get_origin(), v(1.0, 2.0, 3.0));
    assert_eq!(moved.get_lower_left_corner(), v(0.0, 1.5, 2.5));
}

#[test]
fn the_corners_of_the_image_map_to_the_corners_of_the_viewport() {
    let camera = wide_camera();
    assert_eq!(
        camera.get_ray(s(0.0), s(0.0)).direction,
        Vector3D { x: Scalar::from_raw(-1_777_777_777), y: s(-1.0), z: s(-1.0) }
    );
    assert_eq!(
        camera.get_ray(s(1.0), s(1.0)).direction,
        Vector3D { x: Scalar::from_raw(1_777_777_777), y: s(1.0), z: s(-1.0) }
    );
    assert_eq!(
        camera.get_ray(s(0.25), s(0.75)).direction,
        Vector3D { x: Scalar::from_raw(-888_888_889), y: s(0.5), z: s(-1.0) }
    );
}

#[test]
fn rays_start_at_the_origin_of_the_camera() {
    let moved = Camera::new(s(2.0), s(1.0), s(0.5), v(1.0, 2.0, 3.0)).unwrap();
    let ray = moved.get_ray(s(0.5), s(0.5));
    assert_eq!(ray.origin, v(1.0, 2.0, 3.0));
    assert_eq!(ray.direction, v(0.0, 0.0, -0.5));
}

#[test]
fn a_degenerate_viewport_is_refused() {
    let origin = v(0.0, 0.0, 0.0);
    assert_eq!(
        Camera::new(s(1.5), s(0.0), s(1.0), origin).err(),
        Some(GeometryError::DegenerateCamera)
    );
    assert_eq!(
        Camera::new(s(1.5), s(-2.0), s(1.0), origin).err(),
        Some(GeometryError::DegenerateCamera)
    );
    assert_eq!(
        Camera::new(s(0.0), s(2.0), s(1.0), origin).err(),
        Some(GeometryError::DegenerateCamera)
    );
    assert!(Camera::new(s(-1.5), s(2.0), s(1.0), origin).is_ok());
    assert!(Camera::new(s(1.5), s(2.0), s(0.0), origin).is_ok());
}

#[test]
fn the_center_of_the_image_maps_straight_ahead_for_any_camera() {
    let mut rng = fastrand::Rng::with_seed(41);
    for _ in 0..2_000 {
        let aspect_ratio = Scalar::from_raw(rng.i64(1..5_000_000_000));
        let height = Scalar::from_raw(rng.i64(1..50_000_000_000));
        let focal_length = Scalar::from_raw(rng.i64(-9_000_000_000..9_000_000_000));
        let origin = Vector3D {
            x: Scalar::from_raw(rng.i64(-1_000_000_000_000..1_000_000_000_000)),
            y: Scalar::from_raw(rng.i64(-1_000_000_000_000..1_000_000_000_000)),
            z: Scalar::from_raw(rng.i64(-1_000_000_000_000..1_000_000_000_000)),
        };
        let camera = Camera::new(aspect_ratio, height, focal_length, origin).unwrap();
        let ray = camera.get_ray(s(0.5), s(0.5));
        assert_eq!(ray.origin, origin);
        assert_eq!(ray.direction, Vector3D { x: s(0.0), y: s(0.0), z: -focal_length });
    }
}
