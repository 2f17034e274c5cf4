use raytracer::color::RGBColor;
use raytracer::error::GeometryError;
use raytracer::math::{
    generate_random_number, half, random_number_at, ray_color, ray_color_2, ray_color_3,
    ray_color_4, sky_blue,
};
use raytracer::ray::Ray3D;
use raytracer::scalar::Scalar;
use raytracer::scene::Scene;
use raytracer::sphere::Sphere;
use raytracer::vector::Vector3D;

fn s(x: f64) -> Scalar {
    Scalar::from_raw((x * 1e9).round() as i64)
}

fn v(x: f64, y: f64, z: f64) -> Vector3D {
    Vector3D { x: s(x), y: s(y), z: s(z) }
}

fn rgb(r: i64, g: i64, b: i64) -> RGBColor {
    RGBColor { R: Scalar::from_raw(r), G: Scalar::from_raw(g), B: Scalar::from_raw(b) }
}

fn ray(origin: Vector3D, direction: Vector3D) -> Ray3D {
    Ray3D { origin, direction }
}

fn ball() -> Sphere {
    Sphere::new(v(0.0, 0.0, -1.0), s(0.5)).unwrap()
}

#[test]
fn color_constructors() {
    assert_eq!(RGBColor::new(), rgb(0, 0, 0));
    assert_eq!(RGBColor::zeros(), rgb(0, 0, 0));
    assert_eq!(RGBColor::ones(), rgb(1_000_000_000, 1_000_000_000, 1_000_000_000));
    assert_eq!(half(), s(0.5));
    assert_eq!(sky_blue(), rgb(500_000_000, 700_000_000, 1_000_000_000));
}

#[test]
fn color_arithmetic() {
    let a = rgb(1_000_000_000, 2_000_000_000, 3_000_000_000);
    let b = rgb(500_000_000, 250_000_000, 4_000_000_000);
    assert_eq!(a + b, rgb(1_500_000_000, 2_250_000_000, 7_000_000_000));
    assert_eq!(a - b, rgb(500_000_000, 1_750_000_000, -1_000_000_000));
    assert_eq!(a * b, rgb(500_000_000, 500_000_000, 12_000_000_000));
    assert_eq!(a * s(0.5), rgb(500_000_000, 1_000_000_000, 1_500_000_000));
    assert_eq!(a / s(4.0), rgb(250_000_000, 500_000_000, 750_000_000));
}

#[test]
fn color_random_uniform_stays_in_the_interval() {
    let mut rng = rand::thread_rng();
    let mut moved = false;
    for _ in 0..50 {
        let c = RGBColor::random_uniform(s(0.25), s(0.75), &mut rng);
        for channel in [c.R, c.G, c.B] {
            assert!(s(0.25) <= channel && channel < s(0.75));
            moved = moved || channel != s(0.25);
        }
    }
    assert!(moved);
}

#[test]
fn a_ray_straight_up_is_sky_blue() {
    let up = ray(v(0.0, 0.0, 0.0), v(0.0, 1.0, 0.0));
    assert_eq!(ray_color(&up), Ok(rgb(500_000_000, 700_000_000, 1_000_000_000)));
    let scene: Scene<Sphere> = Scene::default();
    assert_eq!(ray_color_4(&up, &scene), Ok(rgb(500_000_000, 700_000_000, 1_000_000_000)));
}

#[test]
fn the_gradient_runs_from_white_to_blue() {
    let down = ray(v(0.0, 0.0, 0.0), v(0.0, -3.0, 0.0));
    assert_eq!(ray_color(&down), Ok(RGBColor::ones()));
    let level = ray(v(5.0, 5.0, 5.0), v(2.0, 0.0, 0.0));
    assert_eq!(ray_color(&level), Ok(rgb(750_000_000, 850_000_000, 1_000_000_000)));
    let slanted = ray(v(0.0, 0.0, 0.0), v(0.0, 1.0, 1.0));
    assert_eq!(ray_color(&slanted), Ok(rgb(573_223_305, 743_933_983, 1_000_000_000)));
}

#[test]
fn a_short_direction_has_the_color_of_its_direction() {
    let up = ray(v(0.0, 0.0, 0.0), v(0.0, 0.00003, 0.0));
    assert_eq!(ray_color(&up), Ok(rgb(500_000_000, 700_000_000, 1_000_000_000)));
    let down = ray(v(0.0, 0.0, 0.0), v(0.0, -0.00004472, 0.0));
    assert_eq!(ray_color(&down), Ok(RGBColor::ones()));
    let faint = ray(
        v(0.0, 0.0, 0.0),
        Vector3D { x: Scalar::from_raw(0), y: Scalar::from_raw(1), z: Scalar::from_raw(1) },
    );
    assert_eq!(ray_color(&faint), ray_color(&ray(v(0.0, 0.0, 0.0), v(0.0, 1.0, 1.0))));
}

#[test]
fn the_channels_of_the_sky_are_ordered() {
    let mut rng = fastrand::Rng::with_seed(61);
    for _ in 0..5_000 {
        let direction = Vector3D {
            x: Scalar::from_raw(rng.i64(-3_000_000_000..3_000_000_000)),
            y: Scalar::from_raw(rng.i64(-50_000..50_000)),
            z: Scalar::from_raw(rng.i64(-70_000..70_000)),
        };
        if direction != Vector3D::zeros() {
            let c = ray_color(&ray(v(0.0, 0.0, 0.0), direction)).unwrap();
            assert!(s(0.5) <= c.R && c.R <= c.G && c.G <= c.B && c.B == s(1.0));
        }
    }
}

#[test]
fn a_ray_without_direction_has_no_sky_color() {
    let nowhere = ray(v(1.0, 1.0, 1.0), v(0.0, 0.0, 0.0));
    assert_eq!(ray_color(&nowhere), Err(GeometryError::ZeroNorm));
    assert_eq!(ray_color_2(&nowhere, &ball()), Err(GeometryError::ZeroNorm));
    assert_eq!(ray_color_3(&nowhere, &ball()), Err(GeometryError::ZeroNorm));
    let scene: Scene<Sphere> = Scene::default();
    assert_eq!(ray_color_4(&nowhere, &scene), Err(GeometryError::ZeroNorm));
}

#[test]
fn flat_shading_is_red_on_the_sphere_and_sky_elsewhere() {
    let ahead = ray(v(0.0, 0.0, 0.0), v(0.0, 0.0, -1.0));
    assert_eq!(ray_color_2(&ahead, &ball()), Ok(rgb(1_000_000_000, 0, 0)));
    let away = ray(v(0.0, 0.0, 0.0), v(0.0, 0.0, 1.0));
    assert_eq!(ray_color_2(&away, &ball()), Ok(rgb(1_000_000_000, 0, 0)));
    let up = ray(v(0.0, 0.0, 0.0), v(0.0, 1.0, 0.0));
    assert_eq!(ray_color_2(&up, &ball()), ray_color(&up));
}

#[test]
fn normal_shading_of_one_sphere() {
    let ahead = ray(v(0.0, 0.0, 0.0), v(0.0, 0.0, -1.0));
    assert_eq!(ray_color_3(&ahead, &ball()), Ok(rgb(500_000_000, 500_000_000, 1_000_000_000)));
    let oblique = ray(v(0.0, 0.0, 0.0), v(0.1, 0.2, -1.0));
    assert_eq!(ray_color_3(&oblique, &ball()), Ok(rgb(551_335_502, 602_671_005, 986_644_974)));
    let away = ray(v(0.0, 0.0, 0.0), v(0.0, 0.0, 1.0));
    assert_eq!(ray_color_3(&away, &ball()), ray_color(&away));
    let up = ray(v(0.0, 0.0, 0.0), v(0.0, 1.0, 0.0));
    assert_eq!(ray_color_3(&up, &ball()), ray_color(&up));
}

#[test]
fn normal_shading_of_a_scene() {
    let mut scene: Scene<Sphere> = Scene::default();
    scene.add(Sphere::new(v(0.0, 0.0, -3.0), s(0.5)).unwrap());
    scene.add(ball());
    let ahead = ray(v(0.0, 0.0, 0.0), v(0.0, 0.0, -1.0));
    assert_eq!(ray_color_4(&ahead, &scene), Ok(rgb(500_000_000, 500_000_000, 1_000_000_000)));
    let oblique = ray(v(0.0, 0.0, 0.0), v(0.1, 0.2, -1.0));
    assert_eq!(ray_color_4(&oblique, &scene), Ok(rgb(551_335_502, 602_671_005, 986_644_974)));
    let up = ray(v(0.0, 0.0, 0.0), v(0.0, 1.0, 0.0));
    assert_eq!(ray_color_4(&up, &scene), ray_color(&up));
}

#[test]
fn random_number_at_a_fraction() {
    let u = s(0.25);
    assert_eq!(random_number_at(Some(s(2.0)), Some(s(6.0)), u), s(3.0));
    assert_eq!(random_number_at(None, Some(s(6.0)), u), s(1.5));
    assert_eq!(
        random_number_at(Some(s(2.0)), None, u),
        Scalar::from_raw(2_000_000_000 + (i64::MAX - 2_000_000_000) / 4)
    );
    assert_eq!(random_number_at(None, None, u), Scalar::from_raw(i64::MAX / 4));
    assert_eq!(random_number_at(Some(s(2.0)), Some(s(6.0)), s(0.0)), s(2.0));
}

#[test]
fn generated_random_numbers_stay_in_their_range() {
    let mut rng = fastrand::Rng::with_seed(3);
    let mut moved = false;
    for _ in 0..100 {
        let a = generate_random_number(&mut rng, Some(s(2.0)), Some(s(6.0)));
        assert!(s(2.0) <= a && a < s(6.0));
        moved = moved || a != s(2.0);
        let b = generate_random_number(&mut rng, None, Some(s(6.0)));
        assert!(s(0.0) <= b && b < s(6.0));
        let c = generate_random_number(&mut rng, Some(s(2.0)), None);
        assert!(s(2.0) <= c);
        let d = generate_random_number(&mut rng, None, None);
        assert!(s(0.0) <= d);
    }
    assert!(moved);
}
