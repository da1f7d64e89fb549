use raytracer::fixed::fp_of_int;
use raytracer::fixed::LIM;
use raytracer::fixed::SCALE;
use raytracer::hittable::HitRecord;
use raytracer::hittable::Hittable;
use raytracer::hittable::HittableList;
use raytracer::interval::Interval;
use raytracer::material::Material;
use raytracer::ray::Ray3;
use raytracer::ray::T_EPSILON;
use raytracer::sphere::Sphere;
use raytracer::vector::Vector3;

fn gray() -> Material {
    Material::Lambertian { albedo: Vector3::new(32768, 32768, 32768) }
}

fn axis_ray() -> Ray3 {
    Ray3::new(Vector3::zero(), Vector3::new(0, 0, -SCALE))
}

fn query() -> Interval {
    Interval::new(T_EPSILON, LIM)
}

#[test]
fn interval_basics() {
    let iv = Interval::new(fp_of_int(1), fp_of_int(3));
    assert_eq!(iv.size(), fp_of_int(2));
    assert!(iv.contains(fp_of_int(1)));
    assert!(iv.contains(fp_of_int(3)));
    assert!(!iv.contains(fp_of_int(4)));
    assert!(!iv.surrounds(fp_of_int(1)));
    assert!(iv.surrounds(fp_of_int(2)));
    assert!(!iv.surrounds(fp_of_int(3)));
}

#[test]
fn axial_ray_hits_front_face() {
    // A half-unit sphere one unit down the axis: the ray meets it at one
    // half, on the outside, with the normal pointing back at the origin.
    let s = Sphere::new(Vector3::new(0, 0, -SCALE), 32768, gray());
    let hit = s.hit(axis_ray(), query()).expect("the axial ray must hit");
    assert_eq!(hit.t, 32768);
    assert!(hit.t > 0);
    assert!(hit.front_face);
    assert_eq!(hit.normal, Vector3::new(0, 0, SCALE));
    assert_eq!(hit.point, Vector3::new(0, 0, -32768));
}

#[test]
fn axial_hit_on_fine_grid() {
    // Distance one and a half, radius a quarter: all on the 1/256 grid,
    // so the hit parameter and the unit normal are exact.
    let s = Sphere::new(Vector3::new(0, 0, -98304), 16384, gray());
    let hit = s.hit(axis_ray(), query()).expect("axial hit");
    assert_eq!(hit.t, 81920);
    assert!(hit.front_face);
    assert_eq!(hit.normal, Vector3::new(0, 0, SCALE));
    assert_eq!(hit.normal.length_squared(), SCALE);
}

#[test]
fn offset_ray_misses() {
    // Perpendicular offset of two units against a unit radius: no hit,
    // whatever the interval.
    let s = Sphere::new(Vector3::zero(), SCALE, gray());
    let ray = Ray3::new(Vector3::new(fp_of_int(2), 0, 0), Vector3::new(0, 0, -SCALE));
    assert!(s.hit(ray, query()).is_none());
    assert!(s.hit(ray, Interval::new(-LIM, LIM)).is_none());
    assert!(s.hit(ray, Interval::new(0, fp_of_int(10))).is_none());
}

#[test]
fn interval_excludes_roots() {
    // The sphere spans parameters one to three; an interval past the far
    // root sees nothing, one between the roots returns the far root.
    let s = Sphere::new(Vector3::new(0, 0, -fp_of_int(2)), SCALE, gray());
    let near = s.hit(axis_ray(), query()).expect("near root");
    assert_eq!(near.t, fp_of_int(1));
    let far = s
        .hit(axis_ray(), Interval::new(fp_of_int(2), LIM))
        .expect("far root from inside interval");
    assert_eq!(far.t, fp_of_int(3));
    assert!(!far.front_face);
    assert!(s.hit(axis_ray(), Interval::new(fp_of_int(4), LIM)).is_none());
}

#[test]
fn degenerate_sphere_hits_nothing() {
    let s = Sphere::new(Vector3::new(0, 0, -SCALE), -fp_of_int(3), gray());
    assert!(s.hit(axis_ray(), query()).is_none());
}

#[test]
fn front_face_orientation() {
    let ray = axis_ray();
    let outward = Vector3::new(0, 0, SCALE);
    let rec = HitRecord::with_face_normal(Vector3::zero(), outward, SCALE, gray(), ray);
    assert!(rec.front_face);
    assert_eq!(rec.normal, outward);

    let inward = Vector3::new(0, 0, -SCALE);
    let rec2 = HitRecord::with_face_normal(Vector3::zero(), inward, SCALE, gray(), ray);
    assert!(!rec2.front_face);
    assert_eq!(rec2.normal, Vector3::new(0, 0, SCALE));
    // The stored normal never points with the ray.
    assert!(ray.direction.dot(rec.normal) <= 0);
    assert!(ray.direction.dot(rec2.normal) <= 0);
}

#[test]
fn nearest_sphere_wins_either_order() {
    let near = Sphere::new(Vector3::new(0, 0, -fp_of_int(2)), SCALE, gray());
    let far = Sphere::new(Vector3::new(0, 0, -fp_of_int(4)), SCALE, gray());

    let mut world_a = HittableList::new();
    world_a.add(near);
    world_a.add(far);
    let mut world_b = HittableList::new();
    world_b.add(far);
    world_b.add(near);

    let hit_a = world_a.hit(axis_ray(), query()).expect("nearest hit");
    let hit_b = world_b.hit(axis_ray(), query()).expect("nearest hit");
    assert_eq!(hit_a.t, fp_of_int(1));
    assert_eq!(hit_b.t, fp_of_int(1));
    assert_eq!(hit_a, hit_b);
}

#[test]
fn empty_list_and_clear() {
    let mut world = HittableList::new();
    assert!(world.hit(axis_ray(), query()).is_none());
    world.add(Sphere::new(Vector3::new(0, 0, -SCALE), 32768, gray()));
    assert!(world.hit(axis_ray(), query()).is_some());
    world.clear();
    assert!(world.hit(axis_ray(), query()).is_none());
}

#[test]
fn list_construction() {
    let s = Sphere::new(Vector3::new(0, 0, -SCALE), 32768, gray());
    let world = HittableList::new_with(s);
    assert!(world.hit(axis_ray(), query()).is_some());
}

#[test]
fn hit_through_trait() {
    let s = Sphere::new(Vector3::new(0, 0, -SCALE), 32768, gray());
    let as_hittable: &dyn Hittable = &s;
    let rec = as_hittable.hit(axis_ray(), query()).expect("trait dispatch");
    assert_eq!(rec.t, 32768);
}
