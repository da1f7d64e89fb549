//! The hit protocol: hit records, the `Hittable` capability, and the scene
//! aggregate that resolves the nearest hit.

use crate::interval::Interval;
use crate::material::Material;
use crate::ray::Ray3;
use crate::sphere::sphere_hit_s;
use crate::sphere::Sphere;
use crate::vector::vdot;
use crate::vector::vneg;
use crate::vector::Vector3;
use vstd::prelude::*;

verus! {

/// Anything a ray can strike within a parameter interval.
pub trait Hittable {
    fn hit(&self, ray: Ray3, interval: Interval) -> Option<HitRecord>;
}

/// The outcome of a successful intersection.
#[derive(Clone, Copy, Debug, PartialEq, Eq, Structural)]
pub struct HitRecord {
    pub point: Vector3,
    pub normal: Vector3,
    pub t: i64,
    pub front_face: bool,
    pub material: Material,
}

/// Whether the ray arrives from the geometric outside, and the stored
/// normal: the outward normal flipped to oppose the incoming ray.
pub open spec fn face_normal_s(ray: Ray3, outward: Vector3) -> (bool, Vector3) {
    let front_face = vdot(ray.direction, outward) < 0;
    (
        front_face,
        if front_face {
            outward
        } else {
            vneg(outward)
        },
    )
}

/// The record built from an intersection at `point` with raw outward normal.
pub open spec fn make_record_s(
    point: Vector3,
    normal: Vector3,
    t: i64,
    material: Material,
    ray: Ray3,
) -> HitRecord {
    let fixed_up = face_normal_s(ray, normal);
    HitRecord { point, normal: fixed_up.1, t, front_face: fixed_up.0, material }
}

impl HitRecord {
    pub fn with_face_normal(
        point: Vector3,
        normal: Vector3,
        t: i64,
        material: Material,
        ray: Ray3,
    ) -> (rec: HitRecord)
        ensures
            rec == make_record_s(point, normal, t, material, ray),
    {
        let fixed_up = Self::calculate_face_normal(ray, normal);
        HitRecord { point, normal: fixed_up.1, t, front_face: fixed_up.0, material }
    }

    fn calculate_face_normal(ray: Ray3, outward_normal: Vector3) -> (r: (bool, Vector3))
        ensures
            r == face_normal_s(ray, outward_normal),
    {
        let front_face = ray.direction.dot(outward_normal) < 0;
        let normal = if front_face {
            outward_normal
        } else {
            outward_normal.neg()
        };
        (front_face, normal)
    }
}

/// The stored normal of a record always opposes the incoming ray: the
/// front-face flag is set exactly when the ray direction and the raw
/// outward normal point against each other, and the kept normal's dot
/// product with the direction is never positive.
pub proof fn lemma_face_normal_opposes(ray: Ray3, outward: Vector3)
    requires
        crate::vector::vcomp_lim(outward),
    ensures
        face_normal_s(ray, outward).0 == (vdot(ray.direction, outward) < 0),
        vdot(ray.direction, face_normal_s(ray, outward).1) <= 0,
{
    if !(vdot(ray.direction, outward) < 0) {
        crate::vector::lemma_vdot_neg(ray.direction, outward);
    }
}

/// The scene aggregate: spheres queried in turn, while the search interval's
/// upper bound shrinks to the closest parameter found so far.
pub struct HittableList {
    pub objects: Vec<Sphere>,
}

/// The record the aggregate produces: each object is queried with the upper
/// bound narrowed to the best parameter found among the objects before it.
pub open spec fn list_hit_s(
    objects: Seq<Sphere>,
    ray: Ray3,
    interval: Interval,
) -> Option<HitRecord>
    decreases objects.len(),
{
    if objects.len() == 0 {
        None::<HitRecord>
    } else {
        let prev = list_hit_s(objects.drop_last(), ray, interval);
        let cur_max = match prev {
            Some(rec) => rec.t,
            None => interval.max,
        };
        match sphere_hit_s(
            objects.last(),
            ray,
            Interval { min: interval.min, max: cur_max },
        ) {
            Some(rec) => Some(rec),
            None => prev,
        }
    }
}

impl HittableList {
    pub fn new() -> (r: HittableList)
        ensures
            r.objects@ =~= Seq::<Sphere>::empty(),
    {
        HittableList { objects: Vec::new() }
    }

    pub fn new_with(object: Sphere) -> (r: HittableList)
        ensures
            r.objects@ =~= seq![object],
    {
        let mut objects = Vec::new();
        objects.push(object);
        HittableList { objects }
    }

    pub fn add(&mut self, object: Sphere)
        ensures
            final (self).objects@ =~= old(self).objects@.push(object),
    {
        self.objects.push(object);
    }

    pub fn clear(&mut self)
        ensures
            final (self).objects@ =~= Seq::<Sphere>::empty(),
    {
        self.objects.clear();
    }

    /// The nearest hit over all owned objects within the interval.
    pub fn hit(&self, ray: Ray3, interval: Interval) -> (result: Option<HitRecord>)
        ensures
            result == list_hit_s(self.objects@, ray, interval),
    {
        let mut closest_record: Option<HitRecord> = None;
        let mut closest_t = interval.max;
        let n = self.objects.len();
        let mut i: usize = 0;
        while i < n
            invariant
                n == self.objects@.len(),
                i <= n,
                closest_record == list_hit_s(self.objects@.take(i as int), ray, interval),
                match closest_record {
                    Some(rec) => closest_t == rec.t,
                    None => closest_t == interval.max,
                },
            decreases n - i,
        {
            let object = self.objects[i];
            match object.hit(ray, Interval { min: interval.min, max: closest_t }) {
                Some(record) => {
                    closest_record = Some(record);
                    closest_t = record.t;
                },
                None => {},
            }
            proof {
                assert(self.objects@.take(i as int + 1).drop_last() =~= self.objects@.take(
                    i as int,
                ));
                assert(self.objects@.take(i as int + 1).last() == self.objects@[i as int]);
            }
            i = i + 1;
        }
        proof {
            assert(self.objects@.take(n as int) =~= self.objects@);
        }
        closest_record
    }
}

/// Every material of the scene is well-formed.
pub open spec fn scene_wf(objects: Seq<Sphere>) -> bool {
    forall|i: int|
        0 <= i < objects.len() ==> crate::material::material_wf(#[trigger] objects[i].material)
}

/// The material of a record the aggregate returns is the material of one of
/// its objects.
pub proof fn lemma_list_hit_material(objects: Seq<Sphere>, ray: Ray3, interval: Interval)
    ensures
        match list_hit_s(objects, ray, interval) {
            Some(rec) => exists|i: int|
                0 <= i < objects.len() && rec.material == #[trigger] objects[i].material,
            None => true,
        },
    decreases objects.len(),
{
    if objects.len() == 0 {
    } else {
        lemma_list_hit_material(objects.drop_last(), ray, interval);
        let prev = list_hit_s(objects.drop_last(), ray, interval);
        let cur_max = match prev {
            Some(rec) => rec.t,
            None => interval.max,
        };
        let narrowed = Interval { min: interval.min, max: cur_max };
        match sphere_hit_s(objects.last(), ray, narrowed) {
            Some(rec) => {
                assert(rec.material == objects[objects.len() - 1].material);
            },
            None => {
                match prev {
                    Some(rec) => {
                        let i = choose|i: int|
                            0 <= i < objects.drop_last().len() && rec.material
                                == #[trigger] objects.drop_last()[i].material;
                        assert(rec.material == objects[i].material);
                    },
                    None => {},
                }
            },
        }
    }
}

/// The aggregate returns the globally nearest hit: its record is what some
/// object answers for the full query interval, no object's answer has a
/// smaller parameter, and when the aggregate returns nothing, no object
/// hits at all — whatever the order of the list.
#[verifier::rlimit(60)]
pub proof fn lemma_list_hit_nearest(objects: Seq<Sphere>, ray: Ray3, interval: Interval)
    ensures
        match list_hit_s(objects, ray, interval) {
            Some(rec) => {
                &&& exists|i: int|
                    0 <= i < objects.len() && sphere_hit_s(#[trigger] objects[i], ray, interval)
                        == Some(rec)
                &&& forall|i: int|
                    0 <= i < objects.len() ==> match sphere_hit_s(
                        #[trigger] objects[i],
                        ray,
                        interval,
                    ) {
                        Some(ri) => rec.t <= ri.t,
                        None => true,
                    }
            },
            None => forall|i: int|
                0 <= i < objects.len() ==> sphere_hit_s(#[trigger] objects[i], ray, interval)
                    is None,
        },
    decreases objects.len(),
{
    if objects.len() == 0 {
    } else {
        let rest = objects.drop_last();
        lemma_list_hit_nearest(rest, ray, interval);
        let prev = list_hit_s(rest, ray, interval);
        let cur_max = match prev {
            Some(rec) => rec.t,
            None => interval.max,
        };
        let narrowed = Interval { min: interval.min, max: cur_max };
        let last = objects.last();
        assert(forall|i: int| 0 <= i < rest.len() ==> rest[i] == objects[i]);
        assert(objects[objects.len() - 1] == last);
        match prev {
            Some(p) => {
                let i = choose|i: int|
                    0 <= i < rest.len() && sphere_hit_s(#[trigger] rest[i], ray, interval)
                        == Some(p);
                crate::sphere::lemma_sphere_hit_t_in_interval(rest[i], ray, interval);
                assert(interval.min <= p.t < interval.max);
            },
            None => {},
        }
        assert(cur_max <= interval.max);
        crate::sphere::lemma_sphere_hit_narrow(
            last,
            ray,
            interval.min,
            interval.max,
            cur_max,
        );
        match sphere_hit_s(last, ray, narrowed) {
            Some(rec) => {
                assert(list_hit_s(objects, ray, interval) == Some(rec));
                assert(sphere_hit_s(last, ray, interval) == Some(rec) && rec.t < cur_max);
                assert(sphere_hit_s(objects[objects.len() - 1], ray, interval) == Some(rec));
            },
            None => {
                assert(list_hit_s(objects, ray, interval) == prev);
                match prev {
                    Some(p) => {
                        let i = choose|i: int|
                            0 <= i < rest.len() && sphere_hit_s(
                                #[trigger] rest[i],
                                ray,
                                interval,
                            ) == Some(p);
                        assert(sphere_hit_s(objects[i], ray, interval) == Some(p));
                        match sphere_hit_s(last, ray, interval) {
                            Some(rl) => {
                                assert(!(rl.t < cur_max));
                                assert(p.t <= rl.t);
                            },
                            None => {},
                        }
                    },
                    None => {
                        assert(narrowed == interval);
                    },
                }
            },
        }
    }
}

/// Rearranging the scene's objects never changes which distance the
/// aggregate reports: two lists holding the same spheres agree on whether
/// a ray hits and on the parameter of the nearest hit.
/// Half of order-irrelevance: where the first list reports a hit, a list
/// of the same spheres reports one at most as far.
proof fn lemma_list_hit_dominates(
    objs_a: Seq<Sphere>,
    objs_b: Seq<Sphere>,
    ray: Ray3,
    interval: Interval,
)
    requires
        objs_a.to_multiset() == objs_b.to_multiset(),
    ensures
        match list_hit_s(objs_a, ray, interval) {
            Some(ra) => match list_hit_s(objs_b, ray, interval) {
                Some(rb) => rb.t <= ra.t,
                None => false,
            },
            None => true,
        },
{
    lemma_list_hit_nearest(objs_a, ray, interval);
    lemma_list_hit_nearest(objs_b, ray, interval);
    objs_a.to_multiset_ensures();
    objs_b.to_multiset_ensures();
    match list_hit_s(objs_a, ray, interval) {
        Some(ra) => {
            let i = choose|i: int|
                0 <= i < objs_a.len() && sphere_hit_s(#[trigger] objs_a[i], ray, interval)
                    == Some(ra);
            assert(objs_a.contains(objs_a[i]));
            assert(objs_a.to_multiset().count(objs_a[i]) > 0);
            assert(objs_b.to_multiset().count(objs_a[i]) > 0);
            assert(objs_b.contains(objs_a[i]));
            let j = choose|j: int| 0 <= j < objs_b.len() && objs_b[j] == objs_a[i];
            assert(sphere_hit_s(objs_b[j], ray, interval) == Some(ra));
        },
        None => {},
    }
}

/// Rearranging the scene's objects never changes which distance the
/// aggregate reports: two lists holding the same spheres agree on whether
/// a ray hits and on the parameter of the nearest hit.
pub proof fn lemma_list_hit_order_irrelevant(
    objs1: Seq<Sphere>,
    objs2: Seq<Sphere>,
    ray: Ray3,
    interval: Interval,
)
    requires
        objs1.to_multiset() == objs2.to_multiset(),
    ensures
        match (list_hit_s(objs1, ray, interval), list_hit_s(objs2, ray, interval)) {
            (Some(r1), Some(r2)) => r1.t == r2.t,
            (None, None) => true,
            _ => false,
        },
{
    lemma_list_hit_dominates(objs1, objs2, ray, interval);
    lemma_list_hit_dominates(objs2, objs1, ray, interval);
}

/// Every record the aggregate produces carries a normal oriented against
/// the ray, since it is some object's record.
pub proof fn lemma_list_record_normal_opposes(
    objects: Seq<Sphere>,
    ray: Ray3,
    interval: Interval,
)
    ensures
        match list_hit_s(objects, ray, interval) {
            Some(rec) => vdot(ray.direction, rec.normal) <= 0,
            None => true,
        },
{
    lemma_list_hit_nearest(objects, ray, interval);
    match list_hit_s(objects, ray, interval) {
        Some(rec) => {
            let i = choose|i: int|
                0 <= i < objects.len() && sphere_hit_s(#[trigger] objects[i], ray, interval)
                    == Some(rec);
            crate::sphere::lemma_sphere_record_normal_opposes(objects[i], ray, interval);
        },
        None => {},
    }
}

impl Hittable for HittableList {
    fn hit(&self, ray: Ray3, interval: Interval) -> Option<HitRecord> {
        HittableList::hit(self, ray, interval)
    }
}

} // verus!
