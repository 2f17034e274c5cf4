//! Scenes: ordered collections of surfaces, tested as one surface.

use vstd::prelude::*;
use crate::hittable::{spec_before, HitRecord, Hittable};
use crate::ray::Ray3D;
use crate::scalar::Scalar;

verus! {

/// The surfaces of a scene, in the order in which they were added.
pub struct Scene<H: Hittable> {
    pub objects: Vec<H>,
}

/// The upper end of the window that is left after `found`: the parameter of
/// the intersection found so far, or `t_max` where there is none.
pub open spec fn spec_closest_so_far(found: Option<HitRecord>, t_max: Scalar) -> Scalar {
    match found {
        Some(rec) => rec.t,
        None => t_max,
    }
}

/// The intersection that a single pass over `objects` resolves: each object
/// is tested in the window that ends at the closest intersection found
/// before it, and replaces that intersection where it is hit.
pub open spec fn spec_nearest_hit<H: Hittable>(
    objects: Seq<H>,
    ray: &Ray3D,
    t_min: Scalar,
    t_max: Scalar,
) -> Option<HitRecord>
    decreases objects.len(),
{
    if objects.len() == 0 {
        None
    } else {
        let found = spec_nearest_hit(objects.drop_last(), ray, t_min, t_max);
        match objects.last().spec_hit(ray, t_min, spec_closest_so_far(found, t_max)) {
            Some(rec) => Some(rec),
            None => found,
        }
    }
}

impl<H: Hittable> View for Scene<H> {
    type V = Seq<H>;

    open spec fn view(&self) -> Seq<H> {
        self.objects@
    }
}

impl<H: Hittable> Scene<H> {
    /// The scene without any object.
    pub fn new() -> (scene: Scene<H>)
        ensures
            scene@ == Seq::<H>::empty(),
    {
        Scene { objects: Vec::new() }
    }

    pub fn is_empty(&self) -> (empty: bool)
        ensures
            empty == (self@.len() == 0),
    {
        self.objects.len() == 0
    }

    /// Appends one object.
    pub fn add(&mut self, object: H)
        ensures
            final(self)@ == old(self)@.push(object),
    {
        self.objects.push(object);
    }
}

impl<H: Hittable> Default for Scene<H> {
    fn default() -> (scene: Scene<H>)
        ensures
            scene@ == Seq::<H>::empty(),
    {
        Scene { objects: Vec::new() }
    }
}

impl<H: Hittable> Hittable for Scene<H> {
    open spec fn spec_hit(&self, ray: &Ray3D, t_min: Scalar, t_max: Scalar) -> Option<HitRecord> {
        spec_nearest_hit(self@, ray, t_min, t_max)
    }

    proof fn lemma_hit_protocol(&self, ray: &Ray3D, t_min: Scalar, t_max: Scalar) {
        lemma_nearest_hit_protocol(self@, ray, t_min, t_max);
    }

    proof fn lemma_hit_window(&self, ray: &Ray3D, t_min: Scalar, t_max: Scalar, t_cut: Scalar) {
        lemma_nearest_hit_window(self@, ray, t_min, t_max, t_cut);
    }

    fn hit(&self, ray: &Ray3D, t_min: Scalar, t_max: Scalar, hit_record: &mut HitRecord) -> (hit:
        bool) {
        proof {
            lemma_nearest_hit_protocol(self@, ray, t_min, t_max);
        }
        let mut hit_record_temp = HitRecord::default();
        let mut hit_anything = false;
        let mut closest_so_far = t_max;
        let mut i: usize = 0;
        while i < self.objects.len()
            invariant
                i <= self.objects.len(),
                hit_anything == spec_nearest_hit(self@.take(i as int), ray, t_min, t_max).is_some(),
                hit_anything ==> Some(*hit_record) == spec_nearest_hit(
                    self@.take(i as int),
                    ray,
                    t_min,
                    t_max,
                ),
                !hit_anything ==> *hit_record == *old(hit_record),
                closest_so_far == spec_closest_so_far(
                    spec_nearest_hit(self@.take(i as int), ray, t_min, t_max),
                    t_max,
                ),
            decreases self.objects.len() - i,
        {
            proof {
                assert(self@.take(i + 1).drop_last() =~= self@.take(i as int));
            }
            if self.objects[i].hit(ray, t_min, closest_so_far, &mut hit_record_temp) {
                hit_anything = true;
                closest_so_far = hit_record_temp.get_t();
                *hit_record = hit_record_temp;
            }
            i += 1;
        }
        proof {
            assert(self@.take(i as int) =~= self@);
        }
        hit_anything
    }
}

/// What a pass over `objects` resolves lies strictly inside the window, and
/// its normal opposes the ray.
pub proof fn lemma_nearest_hit_protocol<H: Hittable>(
    objects: Seq<H>,
    ray: &Ray3D,
    t_min: Scalar,
    t_max: Scalar,
)
    ensures
        spec_nearest_hit(objects, ray, t_min, t_max) matches Some(rec) ==> {
            &&& t_min.raw() < rec.t.raw() < t_max.raw()
            &&& rec.point == ray.spec_at(rec.t)
            &&& ray.direction.spec_dot(rec.normal_vector).raw() <= 0
        },
    decreases objects.len(),
{
    if objects.len() > 0 {
        let found = spec_nearest_hit(objects.drop_last(), ray, t_min, t_max);
        lemma_nearest_hit_protocol(objects.drop_last(), ray, t_min, t_max);
        objects.last().lemma_hit_protocol(ray, t_min, spec_closest_so_far(found, t_max));
    }
}

/// Lowering the upper end of the window only cuts the resolved intersection
/// off: in the smaller window the pass resolves the same intersection where
/// it lies before the cut, and none else.
pub proof fn lemma_nearest_hit_window<H: Hittable>(
    objects: Seq<H>,
    ray: &Ray3D,
    t_min: Scalar,
    t_max: Scalar,
    t_cut: Scalar,
)
    requires
        t_cut.raw() <= t_max.raw(),
    ensures
        spec_nearest_hit(objects, ray, t_min, t_cut) == spec_before(
            spec_nearest_hit(objects, ray, t_min, t_max),
            t_cut,
        ),
    decreases objects.len(),
{
    if objects.len() > 0 {
        let earlier = objects.drop_last();
        let last = objects.last();
        let found = spec_nearest_hit(earlier, ray, t_min, t_max);
        lemma_nearest_hit_window(earlier, ray, t_min, t_max, t_cut);
        lemma_nearest_hit_protocol(earlier, ray, t_min, t_max);
        let closest = spec_closest_so_far(found, t_max);
        last.lemma_hit_protocol(ray, t_min, closest);
        match found {
            Some(rec) => {
                if rec.t.raw() >= t_cut.raw() {
                    last.lemma_hit_window(ray, t_min, closest, t_cut);
                }
            },
            None => {
                last.lemma_hit_window(ray, t_min, t_max, t_cut);
            },
        }
    }
}

/// The pass resolves the nearest intersection: no object of the scene, tested
/// alone in the whole window, is hit before the resolved intersection.
pub proof fn lemma_nearest_hit_is_closest<H: Hittable>(
    objects: Seq<H>,
    ray: &Ray3D,
    t_min: Scalar,
    t_max: Scalar,
    i: int,
)
    requires
        0 <= i < objects.len(),
    ensures
        objects[i].spec_hit(ray, t_min, t_max) matches Some(own) ==> (spec_nearest_hit(
            objects,
            ray,
            t_min,
            t_max,
        ) matches Some(rec) && rec.t.raw() <= own.t.raw()),
    decreases objects.len(),
{
    let earlier = objects.drop_last();
    let last = objects.last();
    let found = spec_nearest_hit(earlier, ray, t_min, t_max);
    let closest = spec_closest_so_far(found, t_max);
    lemma_nearest_hit_protocol(earlier, ray, t_min, t_max);
    last.lemma_hit_protocol(ray, t_min, closest);
    if i < objects.len() - 1 {
        assert(earlier[i] == objects[i]);
        lemma_nearest_hit_is_closest(earlier, ray, t_min, t_max, i);
    } else {
        last.lemma_hit_protocol(ray, t_min, t_max);
        last.lemma_hit_window(ray, t_min, t_max, closest);
    }
}

/// The resolved intersection is the scene's own: it is what one of the
/// objects reports when it is tested alone in the whole window.
pub proof fn lemma_nearest_hit_is_attained<H: Hittable>(
    objects: Seq<H>,
    ray: &Ray3D,
    t_min: Scalar,
    t_max: Scalar,
)
    ensures
        spec_nearest_hit(objects, ray, t_min, t_max) is Some ==> exists|i: int|
            0 <= i < objects.len() && #[trigger] objects[i].spec_hit(ray, t_min, t_max)
                == spec_nearest_hit(objects, ray, t_min, t_max),
    decreases objects.len(),
{
    if objects.len() > 0 {
        let earlier = objects.drop_last();
        let last = objects.last();
        let found = spec_nearest_hit(earlier, ray, t_min, t_max);
        let closest = spec_closest_so_far(found, t_max);
        lemma_nearest_hit_protocol(earlier, ray, t_min, t_max);
        if last.spec_hit(ray, t_min, closest) is Some {
            last.lemma_hit_window(ray, t_min, t_max, closest);
            assert(objects[objects.len() - 1].spec_hit(ray, t_min, t_max) == spec_nearest_hit(
                objects,
                ray,
                t_min,
                t_max,
            ));
        } else if found is Some {
            lemma_nearest_hit_is_attained(earlier, ray, t_min, t_max);
            let i = choose|i: int|
                0 <= i < earlier.len() && #[trigger] earlier[i].spec_hit(ray, t_min, t_max)
                    == found;
            assert(objects[i] == earlier[i]);
        }
    }
}

/// A ray misses the scene exactly when it misses every object of it.
pub proof fn lemma_miss_means_all_miss<H: Hittable>(
    objects: Seq<H>,
    ray: &Ray3D,
    t_min: Scalar,
    t_max: Scalar,
)
    ensures
        spec_nearest_hit(objects, ray, t_min, t_max) is None <==> forall|i: int|
            0 <= i < objects.len() ==> #[trigger] objects[i].spec_hit(ray, t_min, t_max) is None,
{
    if spec_nearest_hit(objects, ray, t_min, t_max) is None {
        assert forall|i: int| 0 <= i < objects.len() implies #[trigger] objects[i].spec_hit(
            ray,
            t_min,
            t_max,
        ) is None by {
            lemma_nearest_hit_is_closest(objects, ray, t_min, t_max, i);
        }
    } else {
        lemma_nearest_hit_is_attained(objects, ray, t_min, t_max);
    }
}

/// Adding an object to a scene never moves the resolved intersection
/// farther away: a ray that hit before still hits, at a parameter that is no
/// larger.
pub proof fn lemma_add_never_recedes<H: Hittable>(
    scene: Scene<H>,
    object: H,
    ray: &Ray3D,
    t_min: Scalar,
    t_max: Scalar,
)
    ensures
        spec_nearest_hit(scene@, ray, t_min, t_max) matches Some(before) ==> (spec_nearest_hit(
            scene@.push(object),
            ray,
            t_min,
            t_max,
        ) matches Some(after) && after.t.raw() <= before.t.raw()),
{
    let found = spec_nearest_hit(scene@, ray, t_min, t_max);
    assert(scene@.push(object).drop_last() =~= scene@);
    assert(scene@.push(object).last() == object);
    object.lemma_hit_protocol(ray, t_min, spec_closest_so_far(found, t_max));
}

/// An object that is added wins where it is hit before everything already
/// in the scene: the scene then resolves the object's own intersection.
pub proof fn lemma_closer_object_wins<H: Hittable>(
    scene: Scene<H>,
    object: H,
    ray: &Ray3D,
    t_min: Scalar,
    t_max: Scalar,
)
    requires
        object.spec_hit(ray, t_min, t_max) matches Some(own) && (spec_nearest_hit(
            scene@,
            ray,
            t_min,
            t_max,
        ) matches Some(before) ==> own.t.raw() < before.t.raw()),
    ensures
        spec_nearest_hit(scene@.push(object), ray, t_min, t_max) == object.spec_hit(
            ray,
            t_min,
            t_max,
        ),
{
    let found = spec_nearest_hit(scene@, ray, t_min, t_max);
    assert(scene@.push(object).drop_last() =~= scene@);
    assert(scene@.push(object).last() == object);
    lemma_nearest_hit_protocol(scene@, ray, t_min, t_max);
    object.lemma_hit_protocol(ray, t_min, t_max);
    object.lemma_hit_window(ray, t_min, t_max, spec_closest_so_far(found, t_max));
}

/// Testing a scene again, with the record that the first test left behind,
/// gives the same answer and leaves the same record.
pub proof fn lemma_hit_idempotent<H: Hittable>(
    scene: Scene<H>,
    ray: &Ray3D,
    t_min: Scalar,
    t_max: Scalar,
    record: HitRecord,
)
    ensures
        ({
            let first = spec_hit_outcome(scene, ray, t_min, t_max, record);
            spec_hit_outcome(scene, ray, t_min, t_max, first.1) == first
        }),
{
}

/// What `hit` returns and what it leaves in a record that held `record`.
pub open spec fn spec_hit_outcome<H: Hittable>(
    scene: Scene<H>,
    ray: &Ray3D,
    t_min: Scalar,
    t_max: Scalar,
    record: HitRecord,
) -> (bool, HitRecord) {
    match scene.spec_hit(ray, t_min, t_max) {
        Some(rec) => (true, rec),
        None => (false, record),
    }
}

} // verus!
