use raytracer::color::RGBColor;
use raytracer::error::GeometryError;
use raytracer::random::{generate_unit_fraction, interpolate, thread_uniform_between};
use raytracer::scalar::Scalar;
use raytracer::utilities::{
    clamp, degrees_to_radians, encode_color, generate_random_uniform, inverse_cdf_point,
    pixel_fraction, random_uniform_unit_sphere_point, unit_from_cube_point, unit_sphere_point_within,
    SamplingMethod, MAX_ATTEMPTS,
};
use raytracer::vector::{Vector3D, VectorOperations};

fn s(x: f64) -> Scalar {
    Scalar::from_raw((x * 1e9).round() as i64)
}

fn v(x: f64, y: f64, z: f64) -> Vector3D {
    Vector3D { x: s(x), y: s(y), z: s(z) }
}

fn to_f64(x: Scalar) -> f64 {
    x.get_raw() as f64 / 1e9
}

#[test]
fn clamp_limits_to_the_interval() {
    assert_eq!(clamp(s(0.5), s(0.0), s(0.999)), s(0.5));
    assert_eq!(clamp(s(-0.5), s(0.0), s(0.999)), s(0.0));
    assert_eq!(clamp(s(1.5), s(0.0), s(0.999)), s(0.999));
    assert_eq!(clamp(s(0.0), s(0.0), s(0.999)), s(0.0));
    assert_eq!(clamp(s(0.999), s(0.0), s(0.999)), s(0.999));
}

#[test]
fn degrees_to_radians_of_known_angles() {
    assert_eq!(degrees_to_radians(s(180.0)), Scalar::from_raw(3_141_592_654));
    assert_eq!(degrees_to_radians(s(90.0)), Scalar::from_raw(1_570_796_327));
    assert_eq!(degrees_to_radians(s(360.0)), Scalar::from_raw(6_283_185_308));
    assert_eq!(degrees_to_radians(s(-45.0)), Scalar::from_raw(-785_398_163));
    assert_eq!(degrees_to_radians(s(1.0)), Scalar::from_raw(17_453_292));
    assert_eq!(degrees_to_radians(s(0.0)), s(0.0));
}

#[test]
fn encode_color_applies_mean_gamma_and_clamp() {
    let one_sample = RGBColor { R: s(1.0), G: s(0.25), B: s(0.0) };
    assert_eq!(encode_color(one_sample, 1), Some((255, 128, 0)));
    let many = RGBColor { R: s(150.0), G: s(300.0), B: s(0.0) };
    assert_eq!(encode_color(many, 300), Some((181, 255, 0)));
    let odd = RGBColor { R: s(3.0), G: s(1.0), B: s(1000.0) };
    assert_eq!(encode_color(odd, 4).unwrap().0, 221);
    assert_eq!(encode_color(odd, 3).unwrap().1, 147);
    assert_eq!(encode_color(odd, 10).unwrap().2, 255);
}

#[test]
fn encode_color_counts_a_negative_channel_as_zero() {
    let negative = RGBColor { R: s(-1.0), G: s(-0.001), B: s(1.0) };
    assert_eq!(encode_color(negative, 1), Some((0, 0, 255)));
}

#[test]
fn encode_color_needs_a_sample() {
    assert_eq!(encode_color(RGBColor::ones(), 0), None);
}

#[test]
fn sampling_method_names() {
    assert_eq!(
        SamplingMethod::from_name("Acceptance-Rejection"),
        Ok(SamplingMethod::AcceptanceRejection)
    );
    assert_eq!(SamplingMethod::from_name("Inverse-CDF"), Ok(SamplingMethod::InverseCdf));
    assert_eq!(SamplingMethod::from_name("Gaussian-Sampling"), Ok(SamplingMethod::GaussianSampling));
    assert_eq!(SamplingMethod::default(), SamplingMethod::AcceptanceRejection);
}

#[test]
fn an_unknown_sampling_method_is_refused() {
    for name in ["", "inverse-cdf", "Inverse-CDF ", "Rejection", "Gaussian"] {
        assert_eq!(SamplingMethod::from_name(name), Err(GeometryError::UnknownSamplingMethod));
    }
}

#[test]
fn errors_describe_themselves() {
    assert_eq!(GeometryError::ZeroNorm.describe(), "vector has zero norm");
    assert_eq!(GeometryError::NonPositiveRadius.describe(), "sphere radius must be positive");
    assert_eq!(GeometryError::DegenerateCamera.describe(), "camera viewport is degenerate");
    assert_eq!(GeometryError::UnknownSamplingMethod.describe(), "unknown sampling method");
    assert_eq!(GeometryError::DegenerateImage.describe(), "image has a single pixel along one side");
}

#[test]
fn interpolate_between_the_ends() {
    assert_eq!(interpolate(s(2.0), s(6.0), s(0.0)), s(2.0));
    assert_eq!(interpolate(s(2.0), s(6.0), s(0.5)), s(4.0));
    assert_eq!(interpolate(s(-1.0), s(1.0), s(0.25)), s(-0.5));
    assert_eq!(interpolate(s(-1.0), s(1.0), Scalar::from_raw(999_999_999)), Scalar::from_raw(999_999_998));
    assert_eq!(interpolate(s(6.0), s(2.0), s(0.25)), s(5.0));
}

#[test]
fn unit_fractions_lie_below_one_and_vary() {
    let mut rng = fastrand::Rng::with_seed(5);
    let mut seen_low = false;
    let mut seen_high = false;
    for _ in 0..200 {
        let u = generate_unit_fraction(&mut rng);
        assert!(s(0.0) <= u && u < s(1.0));
        seen_low = seen_low || u < s(0.5);
        seen_high = seen_high || u >= s(0.5);
    }
    assert!(seen_low && seen_high);
}

#[test]
fn generated_uniform_numbers_lie_in_the_interval_and_vary() {
    let mut rng = fastrand::Rng::with_seed(9);
    let mut moved = false;
    for _ in 0..200 {
        let x = generate_random_uniform(&mut rng, s(5.0), s(6.0));
        assert!(s(5.0) <= x && x < s(6.0));
        moved = moved || (x != s(5.0) && x != s(6.0) && x != s(0.0));
    }
    assert!(moved);
}

#[test]
fn the_same_seed_gives_the_same_numbers() {
    let mut first = fastrand::Rng::with_seed(21);
    let mut second = fastrand::Rng::with_seed(21);
    for _ in 0..20 {
        assert_eq!(
            generate_random_uniform(&mut first, s(-1.0), s(1.0)),
            generate_random_uniform(&mut second, s(-1.0), s(1.0))
        );
    }
}

#[test]
fn thread_uniform_numbers_lie_in_the_interval_and_vary() {
    let mut rng = rand::thread_rng();
    let mut moved = false;
    for _ in 0..200 {
        let x = thread_uniform_between(&mut rng, s(5.0), s(6.0));
        assert!(s(5.0) <= x && x < s(6.0));
        moved = moved || x != s(5.0);
    }
    assert!(moved);
    assert_eq!(thread_uniform_between(&mut rng, Scalar::from_raw(7), Scalar::from_raw(8)), Scalar::from_raw(7));
}

#[test]
fn cube_points_inside_the_ball_are_accepted() {
    assert_eq!(unit_from_cube_point(&v(0.5, 0.0, 0.0)), Some(v(1.0, 0.0, 0.0)));
    assert_eq!(unit_from_cube_point(&v(0.0, -0.3, 0.4)), Some(v(0.0, -0.6, 0.8)));
}

#[test]
fn cube_points_outside_the_ball_are_rejected() {
    assert_eq!(unit_from_cube_point(&v(0.9, 0.9, 0.9)), None);
    assert_eq!(unit_from_cube_point(&v(1.0, 0.0, 0.0)), None);
    assert_eq!(unit_from_cube_point(&v(0.6, 0.8, 0.0)), None);
}

#[test]
fn the_center_of_the_cube_is_rejected() {
    assert_eq!(unit_from_cube_point(&v(0.0, 0.0, 0.0)), None);
}

#[test]
fn short_cube_points_give_unit_directions() {
    let tiny = Vector3D { x: Scalar::from_raw(2), y: s(0.0), z: s(0.0) };
    assert_eq!(unit_from_cube_point(&tiny), Some(v(1.0, 0.0, 0.0)));
    assert_eq!(unit_from_cube_point(&v(0.00004, 0.00003, 0.0)), Some(v(0.8, 0.6, 0.0)));
    let faint = Vector3D { x: Scalar::from_raw(1), y: Scalar::from_raw(-1), z: Scalar::from_raw(1) };
    let unit = unit_from_cube_point(&faint).unwrap();
    let norm = unit.norm().get_raw();
    assert!(1_000_000_000 - 4 <= norm && norm <= 1_000_000_000 + 2);
}

#[test]
fn rejection_sampling_without_attempts_gives_the_fallback_direction() {
    let mut rng = fastrand::Rng::with_seed(1);
    assert_eq!(unit_sphere_point_within(&mut rng, 0), v(0.0, 0.0, 1.0));
}

#[test]
fn pixel_fractions() {
    assert_eq!(pixel_fraction(0, s(0.0), 599), Ok(s(0.0)));
    assert_eq!(pixel_fraction(599, s(0.0), 599), Ok(s(1.0)));
    assert_eq!(pixel_fraction(299, s(0.5), 599), Ok(s(0.5)));
    assert_eq!(pixel_fraction(1, s(0.25), 4), Ok(s(0.3125)));
    assert_eq!(pixel_fraction(7, s(0.5), 3), Ok(s(2.5)));
}

#[test]
fn an_image_of_one_pixel_across_has_no_pixel_fraction() {
    assert_eq!(pixel_fraction(0, s(0.5), 0), Err(GeometryError::DegenerateImage));
}

#[test]
fn rejection_sampling_gives_unit_vectors() {
    assert_eq!(MAX_ATTEMPTS, 128);
    let mut rng = fastrand::Rng::with_seed(17);
    let mut first: Option<Vector3D> = None;
    let mut varied = false;
    for _ in 0..200 {
        let p = random_uniform_unit_sphere_point(&mut rng);
        let norm = p.norm().get_raw();
        assert!(1_000_000_000 - 4 <= norm && norm <= 1_000_000_000 + 2);
        for c in [p.x, p.y, p.z] {
            assert!(s(-1.0) <= c && c <= s(1.0));
        }
        match first {
            None => first = Some(p),
            Some(q) => varied = varied || p != q,
        }
    }
    assert!(varied);
}

#[test]
fn rejection_sampling_reaches_every_octant() {
    let mut rng = fastrand::Rng::with_seed(23);
    let mut seen = [false; 8];
    for _ in 0..400 {
        let p = unit_sphere_point_within(&mut rng, 64);
        let index = (p.x < s(0.0)) as usize + 2 * ((p.y < s(0.0)) as usize)
            + 4 * ((p.z < s(0.0)) as usize);
        seen[index] = true;
    }
    assert!(seen.iter().all(|&hit| hit));
}

#[test]
fn inverse_cdf_points() {
    assert_eq!(inverse_cdf_point(s(0.5), s(1.0), s(0.0)), v(1.0, 0.0, 0.0));
    assert_eq!(inverse_cdf_point(s(0.0), s(1.0), s(0.0)), v(0.0, 0.0, 1.0));
    assert_eq!(
        inverse_cdf_point(s(0.25), s(0.6), s(0.8)),
        Vector3D {
            x: Scalar::from_raw(519_615_241),
            y: Scalar::from_raw(692_820_322),
            z: s(0.5),
        }
    );
    assert_eq!(
        inverse_cdf_point(s(0.75), s(0.0), s(-1.0)),
        Vector3D { x: s(0.0), y: Scalar::from_raw(-866_025_403), z: s(-0.5) }
    );
}

#[test]
fn inverse_cdf_point_of_a_fraction_out_of_range_lies_on_the_axis() {
    assert_eq!(inverse_cdf_point(s(2.0), s(1.0), s(0.0)), v(0.0, 0.0, -3.0));
}
