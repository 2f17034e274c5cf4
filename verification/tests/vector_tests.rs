use raytracer::error::GeometryError;
use raytracer::scalar::Scalar;
use raytracer::vector::{Vector2D, Vector3D, VectorOperations};

fn s(raw: i64) -> Scalar {
    Scalar::from_raw(raw)
}

fn v(x: i64, y: i64, z: i64) -> Vector3D {
    Vector3D { x: Scalar::from_int(x), y: Scalar::from_int(y), z: Scalar::from_int(z) }
}

fn w(x: i64, y: i64) -> Vector2D {
    Vector2D { x: Scalar::from_int(x), y: Scalar::from_int(y) }
}

fn to_f64(x: Scalar) -> f64 {
    x.get_raw() as f64 / 1e9
}

#[test]
fn vector3_constructors() {
    assert_eq!(Vector3D::new(), v(0, 0, 0));
    assert_eq!(Vector3D::zeros(), v(0, 0, 0));
    assert_eq!(Vector3D::default(), v(0, 0, 0));
    assert_eq!(Vector3D::ones(), v(1, 1, 1));
}

#[test]
fn vector2_constructors() {
    assert_eq!(Vector2D::new(), w(0, 0));
    assert_eq!(Vector2D::zeros(), w(0, 0));
    assert_eq!(Vector2D::default(), w(0, 0));
    assert_eq!(Vector2D::ones(), w(1, 1));
}

#[test]
fn vector3_arithmetic() {
    assert_eq!(v(1, 2, 3) + v(4, 5, 6), v(5, 7, 9));
    assert_eq!(v(1, 2, 3) - v(4, 6, 8), v(-3, -4, -5));
    assert_eq!(v(1, 2, 3) * v(4, 5, 6), v(4, 10, 18));
    assert_eq!(v(1, 2, 3) * Scalar::from_int(-2), v(-2, -4, -6));
    assert_eq!(v(2, 4, -6) / Scalar::from_int(2), v(1, 2, -3));
}

#[test]
fn vector3_division_rounds_each_component_toward_zero() {
    let third = v(1, -1, 2) / Scalar::from_int(3);
    assert_eq!(third, Vector3D { x: s(333_333_333), y: s(-333_333_333), z: s(666_666_666) });
}

#[test]
fn vector2_arithmetic() {
    assert_eq!(w(1, 2) + w(4, 5), w(5, 7));
    assert_eq!(w(1, 2) - w(4, 6), w(-3, -4));
    assert_eq!(w(1, 2) * w(4, 5), w(4, 10));
    assert_eq!(w(1, 2) * Scalar::from_int(3), w(3, 6));
    assert_eq!(w(2, -4) / Scalar::from_int(2), w(1, -2));
}

#[test]
fn inner_product_is_the_sum_of_products() {
    assert_eq!(v(1, 2, 3).inner_product(&v(4, 5, 6)), Scalar::from_int(32));
    assert_eq!(v(1, 0, 0).inner_product(&v(0, 1, 0)), Scalar::zero());
    assert_eq!(w(1, 2).inner_product(&w(3, 4)), Scalar::from_int(11));
}

#[test]
fn norm_is_the_root_of_the_inner_product() {
    assert_eq!(v(3, 4, 0).norm(), Scalar::from_int(5));
    assert_eq!(v(0, 0, 0).norm(), Scalar::zero());
    assert_eq!(v(1, 1, 1).norm(), s(1_732_050_807));
    assert_eq!(w(3, 4).norm(), Scalar::from_int(5));
}

#[test]
fn unit_vector_divides_by_the_norm() {
    let unit = v(3, 4, 0).unit_vector().unwrap();
    assert_eq!(unit, Vector3D { x: s(600_000_000), y: s(800_000_000), z: s(0) });
    let unit2 = w(3, 4).unit_vector().unwrap();
    assert_eq!(unit2, Vector2D { x: s(600_000_000), y: s(800_000_000) });
    let other = v(1, 2, 3).unit_vector().unwrap();
    assert_eq!(other, Vector3D { x: s(267_261_241), y: s(534_522_483), z: s(801_783_725) });
}

#[test]
fn unit_vector_of_a_zero_vector_is_refused() {
    assert_eq!(v(0, 0, 0).unit_vector(), Err(GeometryError::ZeroNorm));
    assert_eq!(w(0, 0).unit_vector(), Err(GeometryError::ZeroNorm));
}

#[test]
fn the_norm_of_a_short_vector_is_not_lost() {
    let tiny = Vector3D { x: s(3), y: s(0), z: s(-4) };
    assert_eq!(tiny.norm(), s(5));
    assert_eq!(tiny.unit_vector(), Ok(Vector3D { x: s(600_000_000), y: s(0), z: s(-800_000_000) }));
    let short = Vector3D { x: s(40_000), y: s(30_000), z: s(0) };
    assert_eq!(short.norm(), s(50_000));
    assert_eq!(short.unit_vector(), Ok(Vector3D { x: s(800_000_000), y: s(600_000_000), z: s(0) }));
    let flat = Vector2D { x: s(0), y: s(-7) };
    assert_eq!(flat.norm(), s(7));
    assert_eq!(flat.unit_vector(), Ok(Vector2D { x: s(0), y: s(-1_000_000_000) }));
}

#[test]
fn the_norm_is_zero_for_the_zero_vector_only() {
    assert_eq!(v(0, 0, 0).norm(), Scalar::zero());
    for raw in [1, -1, 2, 31_622] {
        assert!(Vector3D { x: s(0), y: s(raw), z: s(0) }.norm() > Scalar::zero());
        assert!(Vector2D { x: s(raw), y: s(0) }.norm() > Scalar::zero());
    }
}

#[test]
fn the_unit_vector_of_every_short_vector_has_norm_one() {
    let mut rng = fastrand::Rng::with_seed(53);
    for _ in 0..20_000 {
        let a = Vector3D {
            x: s(rng.i64(-50_000..50_000)),
            y: s(rng.i64(-5..5)),
            z: s(rng.i64(-900_000_000..900_000_000)),
        };
        if a != v(0, 0, 0) {
            let unit = a.unit_vector().unwrap();
            let norm = unit.norm().get_raw();
            assert!(1_000_000_000 - 4 <= norm && norm <= 1_000_000_000 + 2);
            for c in [unit.x, unit.y, unit.z] {
                assert!(s(-1_000_000_000) <= c && c <= s(1_000_000_000));
            }
        }
    }
}

#[test]
fn the_unit_vector_of_the_longest_vectors_has_norm_one() {
    let long = Vector3D { x: Scalar::max_value(), y: Scalar::max_value(), z: -Scalar::max_value() };
    let unit = long.unit_vector().unwrap();
    assert_eq!(unit, Vector3D { x: s(577_350_269), y: s(577_350_269), z: s(-577_350_269) });
    let norm = unit.norm().get_raw();
    assert!(1_000_000_000 - 4 <= norm && norm <= 1_000_000_000 + 2);
    let wide = Vector3D { x: s(9_000_000_000_000_000_000), y: s(9_000_000_000_000_000_000), z: s(1) };
    let norm = wide.unit_vector().unwrap().norm().get_raw();
    assert!(1_000_000_000 - 4 <= norm && norm <= 1_000_000_000 + 2);
}

#[test]
fn the_norm_saturates_for_the_longest_vectors() {
    let long = Vector3D { x: Scalar::max_value(), y: Scalar::max_value(), z: Scalar::max_value() };
    assert_eq!(long.norm(), Scalar::max_value());
}

#[test]
fn normalize_works_in_place() {
    let mut a = v(0, 3, 4);
    assert_eq!(a.normalize(), Ok(()));
    assert_eq!(a, Vector3D { x: s(0), y: s(600_000_000), z: s(800_000_000) });
    let mut b = w(4, 3);
    assert_eq!(b.normalize(), Ok(()));
    assert_eq!(b, Vector2D { x: s(800_000_000), y: s(600_000_000) });
}

#[test]
fn normalize_leaves_a_zero_vector_untouched() {
    let mut a = v(0, 0, 0);
    assert_eq!(a.normalize(), Err(GeometryError::ZeroNorm));
    assert_eq!(a, v(0, 0, 0));
    let mut b = w(0, 0);
    assert_eq!(b.normalize(), Err(GeometryError::ZeroNorm));
    assert_eq!(b, w(0, 0));
}

#[test]
fn norm_of_a_unit_vector_is_one_within_tolerance() {
    let samples = [v(1, 2, 3), v(-5, 1, 7), v(100, -100, 1), v(0, 0, -9), v(3, 4, 0)];
    for a in samples {
        let unit = a.unit_vector().unwrap();
        assert!((to_f64(unit.norm()) - 1.0).abs() < 1e-8);
    }
}

#[test]
fn norm_of_the_unit_vector_of_a_long_vector_is_one_within_four_billionths() {
    let mut rng = fastrand::Rng::with_seed(31);
    let mut below = false;
    for _ in 0..20_000 {
        let a = Vector3D {
            x: s(rng.i64(-5_000_000_000_000..5_000_000_000_000)),
            y: s(rng.i64(-3_000_000_000..3_000_000_000)),
            z: s(rng.i64(-10_000_000_000_000..=10_000_000_000_000)),
        };
        {
            let norm = a.unit_vector().unwrap().norm().get_raw();
            assert!(1_000_000_000 - 4 <= norm && norm <= 1_000_000_000 + 2);
            below = below || norm < 1_000_000_000;
        }
    }
    assert!(below);
}

#[test]
fn unit_vector_of_a_unit_vector_is_itself() {
    let samples = [
        v(1, 0, 0),
        v(0, -1, 0),
        Vector3D { x: s(600_000_000), y: s(0), z: s(-800_000_000) },
    ];
    for a in samples {
        assert_eq!(a.norm(), Scalar::one());
        assert_eq!(a.unit_vector(), Ok(a));
        assert_eq!(a.unit_vector().unwrap().norm(), Scalar::one());
    }
}

#[test]
fn projection_onto_an_axis() {
    assert_eq!(v(1, 1, 0).project(&v(2, 0, 0)), Ok(v(1, 0, 0)));
    assert_eq!(v(3, 4, 5).project(&v(0, 0, -1)), Ok(v(0, 0, 5)));
    assert_eq!(w(3, 4).project(&w(0, 2)), Ok(w(0, 4)));
}

#[test]
fn projection_onto_a_short_vector() {
    let short = Vector3D { x: s(0), y: s(0), z: s(-2) };
    assert_eq!(v(3, 4, 5).project(&short), Ok(v(0, 0, 5)));
    let flat = Vector2D { x: s(30_000), y: s(0) };
    assert_eq!(w(3, 4).project(&flat), Ok(w(3, 0)));
}

#[test]
fn inner_product_is_rounded_once() {
    let a = Vector3D { x: s(40_000), y: s(30_000), z: s(0) };
    assert_eq!(a.inner_product(&a), s(2));
    let b = Vector3D { x: s(20_000), y: s(20_000), z: s(20_000) };
    assert_eq!(b.inner_product(&b), s(1));
    let c = Vector3D { x: s(-20_000), y: s(-20_000), z: s(-20_000) };
    assert_eq!(b.inner_product(&c), s(-1));
    let big = Vector3D { x: Scalar::max_value(), y: Scalar::max_value(), z: Scalar::max_value() };
    assert_eq!(big.inner_product(&big), Scalar::max_value());
    assert_eq!(big.inner_product(&(big * Scalar::from_int(-1))).get_raw(), -i64::MAX);
    let mixed = Vector3D { x: Scalar::max_value(), y: -Scalar::max_value(), z: s(1_500_000_000) };
    assert_eq!(mixed.inner_product(&Vector3D::ones()), s(1_500_000_000));
}

#[test]
fn projection_onto_a_zero_vector_is_refused() {
    assert_eq!(v(1, 1, 0).project(&v(0, 0, 0)), Err(GeometryError::ZeroNorm));
    assert_eq!(w(1, 1).project(&w(0, 0)), Err(GeometryError::ZeroNorm));
}

#[test]
fn cross_product_of_the_axes() {
    assert_eq!(v(1, 0, 0).cross_product(&v(0, 1, 0)), v(0, 0, 1));
    assert_eq!(v(0, 1, 0).cross_product(&v(1, 0, 0)), v(0, 0, -1));
    assert_eq!(v(1, 2, 3).cross_product(&v(4, 5, 6)), v(-3, 6, -3));
    assert_eq!(v(2, 2, 2).cross_product(&v(2, 2, 2)), v(0, 0, 0));
}

#[test]
fn random_uniform_stays_in_the_interval_and_varies() {
    let mut rng = rand::thread_rng();
    let low = Scalar::from_int(2);
    let high = Scalar::from_int(3);
    let mut moved = false;
    for _ in 0..50 {
        let a = Vector3D::random_uniform(low, high, &mut rng);
        for c in [a.x, a.y, a.z] {
            assert!(low <= c && c < high);
            moved = moved || (c != low && c != high);
        }
        let b = Vector2D::random_uniform(low, high, &mut rng);
        for c in [b.x, b.y] {
            assert!(low <= c && c < high);
        }
    }
    assert!(moved);
}

#[test]
fn fast_random_uniform_stays_in_the_interval_and_varies() {
    let mut rng = fastrand::Rng::with_seed(11);
    let low = Scalar::from_int(-4);
    let high = Scalar::from_int(6);
    let mut moved = false;
    for _ in 0..50 {
        let a = Vector3D::fast_random_uniform(low, high, &mut rng);
        for c in [a.x, a.y, a.z] {
            assert!(low <= c && c < high);
            moved = moved || (c != low && c != high && c != Scalar::zero());
        }
        let b = Vector2D::fast_random_uniform(low, high, &mut rng);
        for c in [b.x, b.y] {
            assert!(low <= c && c < high);
        }
    }
    assert!(moved);
}
