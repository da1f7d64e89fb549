use raytracer::fixed::SCALE;
use raytracer::hittable::HitRecord;
use raytracer::material::reflect;
use raytracer::material::refract;
use raytracer::material::Material;
use raytracer::ray::Ray3;
use raytracer::rng::RandomSource;
use raytracer::vector::Vector3;
use raytracer::vector_utils::near_zero;
use raytracer::vector_utils::random_in_unit_disk;
use raytracer::vector_utils::random_in_unit_sphere;
use raytracer::vector_utils::random_unit_vector;

fn surface_record(material: Material) -> HitRecord {
    HitRecord {
        point: Vector3::new(0, 0, -SCALE),
        normal: Vector3::new(0, SCALE, 0),
        t: SCALE,
        front_face: true,
        material,
    }
}

#[test]
fn reflect_is_mirror() {
    // A forty-five degree incidence about the vertical normal.
    let v = Vector3::new(SCALE, -SCALE, 0);
    let n = Vector3::new(0, SCALE, 0);
    assert_eq!(reflect(v, n), Vector3::new(SCALE, SCALE, 0));
}

#[test]
fn refract_straight_through() {
    // Head-on incidence passes straight through, whatever the ratio.
    let v = Vector3::new(0, -SCALE, 0);
    let n = Vector3::new(0, SCALE, 0);
    assert_eq!(refract(v, n, SCALE), v);
    assert_eq!(refract(v, n, 98304), v);
    assert_eq!(refract(v, n, 43690), v);
}

#[test]
fn lambertian_always_scatters_with_albedo() {
    let albedo = Vector3::new(32768, 16384, 65536);
    let mat = Material::Lambertian { albedo };
    let rec = surface_record(mat);
    let ray = Ray3::new(Vector3::zero(), Vector3::new(0, -SCALE, 0));
    let mut rs = RandomSource::new(11);
    for _ in 0..50 {
        let sc = mat.scatter(ray, rec, &mut rs).expect("lambertian always scatters");
        assert_eq!(sc.attenuation, albedo);
        assert!(sc.attenuation.x >= 0 && sc.attenuation.y >= 0 && sc.attenuation.z >= 0);
        assert_eq!(sc.scattered.origin, rec.point);
        assert!(!near_zero(sc.scattered.direction));
    }
}

#[test]
fn metal_without_fuzz_is_deterministic() {
    let albedo = Vector3::new(45875, 39321, 32768);
    let mat = Material::Metal { albedo, fuzz: 0 };
    let rec = surface_record(mat);
    let incident = Ray3::new(Vector3::zero(), Vector3::new(SCALE, -SCALE, 0));
    let expected = reflect(incident.direction, rec.normal).normalize();
    assert_eq!(expected, Vector3::new(46341, 46341, 0));
    let mut rs = RandomSource::new(5);
    for _ in 0..50 {
        let sc = mat.scatter(incident, rec, &mut rs).expect("grazing-free reflection scatters");
        assert_eq!(sc.scattered.direction, expected);
        assert_eq!(sc.attenuation, albedo);
        assert!(sc.attenuation.x >= 0 && sc.attenuation.y >= 0 && sc.attenuation.z >= 0);
    }
}

#[test]
fn metal_absorbs_into_surface() {
    // The mirror direction points into the surface: the ray is absorbed.
    let mat = Material::Metal { albedo: Vector3::new(SCALE, SCALE, SCALE), fuzz: 0 };
    let rec = surface_record(mat);
    let incident = Ray3::new(Vector3::zero(), Vector3::new(0, SCALE, 0));
    let mut rs = RandomSource::new(5);
    assert!(mat.scatter(incident, rec, &mut rs).is_none());
}

#[test]
fn dielectric_attenuation_is_white() {
    let mat = Material::Dielectric { refraction_index: 98304 };
    let rec = surface_record(mat);
    let incident = Ray3::new(Vector3::zero(), Vector3::new(SCALE, -SCALE, 0));
    let mut rs = RandomSource::new(17);
    for _ in 0..50 {
        let sc = mat.scatter(incident, rec, &mut rs).expect("dielectric never absorbs");
        assert_eq!(sc.attenuation, Vector3::new(SCALE, SCALE, SCALE));
        assert_eq!(sc.scattered.origin, rec.point);
    }
}

#[test]
fn near_zero_detects_degenerate() {
    assert!(near_zero(Vector3::zero()));
    assert!(!near_zero(Vector3::new(1, 0, 0)));
    assert!(!near_zero(Vector3::new(0, -1, 0)));
}

#[test]
fn samplers_stay_in_unit_ball() {
    let mut rs = RandomSource::new(23);
    let mut non_fallback = 0;
    for _ in 0..200 {
        let p = random_in_unit_sphere(&mut rs);
        let q = p.length_squared();
        assert!(0 < q && q <= SCALE);
        let d = random_in_unit_disk(&mut rs);
        assert_eq!(d.z, 0);
        let qd = d.length_squared();
        assert!(0 < qd && qd <= SCALE);
        let u = random_unit_vector(&mut rs);
        let qu = u.length_squared();
        assert!(SCALE - raytracer::vector::UNIT_TOL <= qu);
        assert!(qu <= SCALE + raytracer::vector::UNIT_TOL);
        if u != Vector3::new(SCALE, 0, 0) {
            non_fallback += 1;
        }
    }
    // The acceptance check passes for ordinary draws: the fixed fallback
    // direction stays a rarity.
    assert!(non_fallback > 150);
}

#[test]
fn hemisphere_samples_face_the_normal() {
    let normal = Vector3::new(0, SCALE, 0);
    let mut rs = RandomSource::new(31);
    for _ in 0..100 {
        let v = raytracer::vector_utils::random_in_unit_hemisphere(&mut rs, &normal);
        assert!(v.dot(normal) >= 0);
        let qv = v.length_squared();
        assert!(SCALE - raytracer::vector::UNIT_TOL <= qv);
        assert!(qv <= SCALE + raytracer::vector::UNIT_TOL);
        let w = raytracer::vector::random_unit_on_hemisphere(&mut rs, &normal);
        assert!(w.dot(normal) >= 0);
        let qw = w.length_squared();
        assert!(SCALE - raytracer::vector::UNIT_TOL <= qw);
        assert!(qw <= SCALE + raytracer::vector::UNIT_TOL);
    }
}

#[test]
fn random_source_is_seeded_and_varied() {
    let mut a = RandomSource::new(42);
    let mut b = RandomSource::new(42);
    let mut seen_distinct = false;
    let mut last = None;
    for _ in 0..100 {
        let x = a.next_in(-1000000, 1000000);
        let y = b.next_in(-1000000, 1000000);
        assert_eq!(x, y);
        assert!((-1000000..1000000).contains(&x));
        if let Some(prev) = last {
            if prev != x {
                seen_distinct = true;
            }
        }
        last = Some(x);
    }
    assert!(seen_distinct, "a hundred draws should not all coincide");
}
