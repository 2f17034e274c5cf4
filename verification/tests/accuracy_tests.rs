use raytracer::hittable::{HitRecord, Hittable};
use raytracer::ray::Ray3D;
use raytracer::scalar::Scalar;
use raytracer::sphere::Sphere;
use raytracer::vector::Vector3D;

const S: i128 = 1_000_000_000;

fn s(x: f64) -> Scalar {
    Scalar::from_raw((x * 1e9).round() as i64)
}

fn v(x: f64, y: f64, z: f64) -> Vector3D {
    Vector3D { x: s(x), y: s(y), z: s(z) }
}

fn raw(x: Scalar) -> i128 {
    x.get_raw() as i128
}

fn root_of(n: i128) -> i128 {
    let mut low: i128 = 0;
    let mut high: i128 = 1 << 63;
    while high - low > 1 {
        let middle = low + (high - low) / 2;
        if middle * middle <= n {
            low = middle;
        } else {
            high = middle;
        }
    }
    low
}

/// The two sides of the bound for one reported intersection: the error
/// `|distance^2 - radius^2|` and the tolerance `4 root + 2 spread + 304`,
/// with a root that is not below the true one.
fn error_and_tolerance(sphere: &Sphere, ray: &Ray3D, record: &HitRecord) -> (i128, i128) {
    let stretched = ray.direction.stretched();
    let a = raw(stretched.x) * raw(stretched.x)
        + raw(stretched.y) * raw(stretched.y)
        + raw(stretched.z) * raw(stretched.z);
    assert!(a >= S * S);
    let radius = raw(sphere.get_radius());
    let root = root_of((a / S + 1) * (radius * radius / S + 1)) + 1;
    let w = record.get_point() - sphere.get_center();
    let distance = raw(w.x) * raw(w.x) + raw(w.y) * raw(w.y) + raw(w.z) * raw(w.z);
    let spread = raw(w.x).abs() + raw(w.y).abs() + raw(w.z).abs();
    let error = (distance - radius * radius).abs();
    (error, 4 * root + 2 * spread + 304)
}

#[test]
fn the_head_on_hit_lies_exactly_on_the_sphere() {
    let sphere = Sphere::new(v(0.0, 0.0, -1.0), s(0.5)).unwrap();
    let ray = Ray3D { origin: v(0.0, 0.0, 0.0), direction: v(0.0, 0.0, -1.0) };
    let mut record = HitRecord::default();
    assert!(sphere.hit(&ray, Scalar::zero(), Scalar::max_value(), &mut record));
    let (error, tolerance) = error_and_tolerance(&sphere, &ray, &record);
    assert_eq!(error, 0);
    assert!(tolerance > 0);
}

#[test]
fn reported_hits_lie_on_the_sphere_within_the_tolerance() {
    let spheres = [
        Sphere::new(v(0.0, 0.0, -1.0), s(0.5)).unwrap(),
        Sphere::new(v(0.0, -100.5, -1.0), s(100.0)).unwrap(),
        Sphere::new(v(3.0, 2.0, -7.0), s(2.25)).unwrap(),
    ];
    let origins = [v(0.0, 0.0, 0.0), v(0.1, -0.2, -1.1), v(2.5, 1.5, -6.0)];
    let mut hits = 0;
    let mut inexact = 0;
    for sphere in spheres.iter() {
        for origin in origins {
            for i in -6..=6 {
                for j in -6..=6 {
                    for scale in [0.000001, 0.00004, 0.05, 1.0, 7.5] {
                        let direction =
                            v(0.11 * i as f64 * scale, 0.07 * j as f64 * scale, -scale);
                        let ray = Ray3D { origin, direction };
                        let mut record = HitRecord::default();
                        if sphere.hit(&ray, s(0.0001), Scalar::max_value(), &mut record) {
                            hits += 1;
                            let (error, tolerance) = error_and_tolerance(sphere, &ray, &record);
                            assert!(error <= tolerance);
                            if error > 0 {
                                inexact += 1;
                            }
                        }
                    }
                }
            }
        }
    }
    assert!(hits > 800);
    assert!(inexact > 100);
}

#[test]
fn small_spheres_far_away_are_hit_on_their_surface() {
    let mut rng = fastrand::Rng::with_seed(83);
    let mut hits = 0;
    for _ in 0..20_000 {
        let far = [1.0, 10.0, 100.0, 900.0][rng.usize(0..4)];
        let radius = [0.001, 0.05, 0.5, 5.0][rng.usize(0..4)];
        let center = v(0.0, 0.0, -far);
        let sphere = Sphere::new(center, s(radius)).unwrap();
        let aim = radius / far * 0.9;
        let direction = Vector3D {
            x: s(aim * (rng.f64() * 2.0 - 1.0)),
            y: s(aim * (rng.f64() * 2.0 - 1.0)),
            z: Scalar::from_raw(-1_000_000_000 + rng.i64(-1000..1000)),
        };
        let ray = Ray3D { origin: v(0.0, 0.0, 0.0), direction };
        let mut record = HitRecord::default();
        if sphere.hit(&ray, s(0.0001), Scalar::max_value(), &mut record) {
            hits += 1;
            let (error, tolerance) = error_and_tolerance(&sphere, &ray, &record);
            assert!(error <= tolerance);
            let w = record.get_point() - center;
            let distance =
                ((raw(w.x) * raw(w.x) + raw(w.y) * raw(w.y) + raw(w.z) * raw(w.z)) as f64).sqrt()
                    / 1e9;
            assert!((distance - radius).abs() < 2e-8);
        }
    }
    assert!(hits > 5_000);
}
