use raytracer::hittable::{HitRecord, Hittable};
use raytracer::ray::Ray3D;
use raytracer::scalar::Scalar;
use raytracer::scene::Scene;
use raytracer::sphere::Sphere;
use raytracer::vector::Vector3D;

fn s(x: f64) -> Scalar {
    Scalar::from_raw((x * 1e9).round() as i64)
}

fn v(x: f64, y: f64, z: f64) -> Vector3D {
    Vector3D { x: s(x), y: s(y), z: s(z) }
}

fn ball(z: f64) -> Sphere {
    Sphere::new(v(0.0, 0.0, z), s(0.5)).unwrap()
}

fn forward() -> Ray3D {
    Ray3D { origin: v(0.0, 0.0, 0.0), direction: v(0.0, 0.0, -1.0) }
}

fn marked_record() -> HitRecord {
    let mut record = HitRecord::default();
    record.set_t(s(77.0));
    record.set_point(v(1.0, 2.0, 3.0));
    record
}

#[test]
fn a_new_scene_is_empty_and_grows_by_add() {
    let mut scene: Scene<Sphere> = Scene::default();
    assert!(scene.is_empty());
    assert_eq!(scene.objects.len(), 0);
    scene.add(ball(-1.0));
    assert!(!scene.is_empty());
    scene.add(ball(-3.0));
    assert_eq!(scene.objects.len(), 2);
    assert_eq!(scene.objects[0].get_center(), v(0.0, 0.0, -1.0));
    assert_eq!(scene.objects[1].get_center(), v(0.0, 0.0, -3.0));
    let other: Scene<Sphere> = Scene::new();
    assert!(other.is_empty());
}

#[test]
fn an_empty_scene_is_never_hit() {
    let scene: Scene<Sphere> = Scene::default();
    let mut record = marked_record();
    assert!(!scene.hit(&forward(), Scalar::zero(), Scalar::max_value(), &mut record));
    assert_eq!(record, marked_record());
}

#[test]
fn a_missed_scene_leaves_the_record_untouched() {
    let mut scene: Scene<Sphere> = Scene::default();
    scene.add(ball(1.0));
    scene.add(ball(3.0));
    let mut record = marked_record();
    assert!(!scene.hit(&forward(), Scalar::zero(), Scalar::max_value(), &mut record));
    assert_eq!(record, marked_record());
}

#[test]
fn the_nearest_object_wins_whatever_the_order() {
    let mut near_first: Scene<Sphere> = Scene::default();
    near_first.add(ball(-1.0));
    near_first.add(ball(-3.0));
    let mut far_first: Scene<Sphere> = Scene::default();
    far_first.add(ball(-3.0));
    far_first.add(ball(-1.0));
    for scene in [near_first, far_first] {
        let mut record = HitRecord::default();
        assert!(scene.hit(&forward(), Scalar::zero(), Scalar::max_value(), &mut record));
        assert_eq!(record.get_t(), s(0.5));
        assert_eq!(record.get_point(), v(0.0, 0.0, -0.5));
        assert_eq!(record.get_normal_vector(), v(0.0, 0.0, 1.0));
        assert!(record.get_front_face());
    }
}

#[test]
fn the_window_excludes_the_near_object() {
    let mut scene: Scene<Sphere> = Scene::default();
    scene.add(ball(-1.0));
    scene.add(ball(-3.0));
    let mut record = HitRecord::default();
    assert!(scene.hit(&forward(), s(2.0), Scalar::max_value(), &mut record));
    assert_eq!(record.get_t(), s(2.5));
    let mut none = marked_record();
    assert!(!scene.hit(&forward(), s(1.6), s(2.5), &mut none));
    assert_eq!(none, marked_record());
}

#[test]
fn of_two_equal_hits_the_first_object_wins() {
    let mut scene: Scene<Sphere> = Scene::default();
    scene.add(Sphere::new(v(0.0, 0.0, -1.0), s(0.5)).unwrap());
    scene.add(Sphere::new(v(0.0, 0.0, -1.5), s(1.0)).unwrap());
    let mut record = HitRecord::default();
    assert!(scene.hit(&forward(), Scalar::zero(), Scalar::max_value(), &mut record));
    assert_eq!(record.get_t(), s(0.5));
    let mut alone = HitRecord::default();
    assert!(scene.objects[0].hit(&forward(), Scalar::zero(), Scalar::max_value(), &mut alone));
    assert_eq!(record, alone);
}

#[test]
fn hitting_twice_gives_the_same_result() {
    let mut scene: Scene<Sphere> = Scene::default();
    scene.add(ball(-3.0));
    scene.add(ball(-1.0));
    let mut first = HitRecord::default();
    let hit_first = scene.hit(&forward(), s(0.0001), Scalar::max_value(), &mut first);
    let mut second = HitRecord::default();
    let hit_second = scene.hit(&forward(), s(0.0001), Scalar::max_value(), &mut second);
    assert_eq!(hit_first, hit_second);
    assert_eq!(first, second);
    let mut again = first;
    assert_eq!(scene.hit(&forward(), s(0.0001), Scalar::max_value(), &mut again), hit_first);
    assert_eq!(again, first);
    let up = Ray3D { origin: v(0.0, 0.0, 0.0), direction: v(0.0, 1.0, 0.0) };
    let mut miss_one = marked_record();
    let mut miss_two = marked_record();
    assert!(!scene.hit(&up, s(0.0001), Scalar::max_value(), &mut miss_one));
    assert!(!scene.hit(&up, s(0.0001), Scalar::max_value(), &mut miss_two));
    assert_eq!(miss_one, miss_two);
}

#[test]
fn adding_a_closer_object_never_moves_the_hit_away() {
    let mut scene: Scene<Sphere> = Scene::default();
    scene.add(ball(-5.0));
    let mut before = HitRecord::default();
    assert!(scene.hit(&forward(), s(0.0001), Scalar::max_value(), &mut before));
    assert_eq!(before.get_t(), s(4.5));
    scene.add(ball(-2.0));
    let mut closer = HitRecord::default();
    assert!(scene.hit(&forward(), s(0.0001), Scalar::max_value(), &mut closer));
    assert_eq!(closer.get_t(), s(1.5));
    assert!(closer.get_t() <= before.get_t());
    scene.add(ball(-9.0));
    scene.add(ball(4.0));
    let mut after = HitRecord::default();
    assert!(scene.hit(&forward(), s(0.0001), Scalar::max_value(), &mut after));
    assert_eq!(after, closer);
}

#[test]
fn every_object_alone_is_hit_no_sooner_than_the_scene() {
    let centers = [-7.0, -2.5, -4.0, 3.0, -11.0];
    let mut scene: Scene<Sphere> = Scene::default();
    for z in centers {
        scene.add(ball(z));
    }
    let mut resolved = HitRecord::default();
    assert!(scene.hit(&forward(), s(0.0001), Scalar::max_value(), &mut resolved));
    let mut attained = false;
    for object in scene.objects.iter() {
        let mut own = HitRecord::default();
        if object.hit(&forward(), s(0.0001), Scalar::max_value(), &mut own) {
            assert!(resolved.get_t() <= own.get_t());
            attained = attained || own == resolved;
        }
    }
    assert!(attained);
    assert_eq!(resolved.get_t(), s(2.0));
}

#[test]
fn a_scene_of_scenes_is_a_scene() {
    let mut left: Scene<Sphere> = Scene::default();
    left.add(ball(-6.0));
    let mut right: Scene<Sphere> = Scene::default();
    right.add(ball(-3.0));
    right.add(ball(-8.0));
    let mut both: Scene<Scene<Sphere>> = Scene::default();
    both.add(left);
    both.add(right);
    let mut record = HitRecord::default();
    assert!(both.hit(&forward(), s(0.0001), Scalar::max_value(), &mut record));
    assert_eq!(record.get_t(), s(2.5));
}
