use raytracer::fixed::fp_add;
use raytracer::fixed::fp_div;
use raytracer::fixed::fp_mul;
use raytracer::fixed::fp_of_int;
use raytracer::fixed::fp_sqrt;
use raytracer::fixed::fp_sub;
use raytracer::fixed::fp_to_int;
use raytracer::fixed::LIM;
use raytracer::fixed::SCALE;
use raytracer::point::Point3;
use raytracer::vector::Vector3;

#[test]
fn add_vector() {
    let v = Vector3::new(fp_of_int(1), fp_of_int(2), fp_of_int(3));
    let p = Point3::new(fp_of_int(-1), fp_of_int(3), fp_of_int(10));
    assert_eq!(v.add_point(p), p.add(v));
    assert_eq!(p.add(v), Point3::new(fp_of_int(0), fp_of_int(5), fp_of_int(13)));
}

#[test]
fn displacement() {
    let p1 = Point3::new(fp_of_int(1), fp_of_int(-2), fp_of_int(3));
    let p2 = Point3::new(fp_of_int(4), fp_of_int(5), fp_of_int(-6));
    assert_eq!(p1.get_vector_to(&p2), Vector3::new(fp_of_int(3), fp_of_int(7), fp_of_int(-9)));
}

#[test]
fn scalar_basics() {
    assert_eq!(fp_of_int(2), 131072);
    assert_eq!(fp_of_int(-3), -196608);
    assert_eq!(fp_add(SCALE, SCALE), 131072);
    assert_eq!(fp_sub(SCALE, 3 * SCALE), -131072);
    assert_eq!(fp_mul(131072, 98304), 196608);
    assert_eq!(fp_mul(-131072, 98304), -196608);
    assert_eq!(fp_div(fp_of_int(3), fp_of_int(2)), 98304);
    assert_eq!(fp_div(fp_of_int(-3), fp_of_int(2)), -98304);
    assert_eq!(fp_to_int(fp_of_int(7)), 7);
    assert_eq!(fp_to_int(98304), 1);
}

#[test]
fn scalar_saturates() {
    assert_eq!(fp_add(LIM, LIM), LIM);
    assert_eq!(fp_sub(-LIM, LIM), -LIM);
    assert_eq!(fp_mul(LIM, LIM), LIM);
}

#[test]
fn square_roots() {
    assert_eq!(fp_sqrt(fp_of_int(4)), 131072);
    assert_eq!(fp_sqrt(fp_of_int(25)), 5 * SCALE);
    // The root of two, rounded down to the fixed-point grid.
    assert_eq!(fp_sqrt(fp_of_int(2)), 92681);
    assert_eq!(fp_sqrt(0), 0);
    assert_eq!(fp_sqrt(-65536), 0);
}

#[test]
fn vector_algebra() {
    let a = Vector3::new(fp_of_int(1), fp_of_int(2), fp_of_int(3));
    let b = Vector3::new(fp_of_int(4), fp_of_int(-5), fp_of_int(6));
    assert_eq!(a.add(b), Vector3::new(fp_of_int(5), fp_of_int(-3), fp_of_int(9)));
    assert_eq!(a.sub(b), Vector3::new(fp_of_int(-3), fp_of_int(7), fp_of_int(-3)));
    assert_eq!(a.neg(), Vector3::new(fp_of_int(-1), fp_of_int(-2), fp_of_int(-3)));
    assert_eq!(a.scale(fp_of_int(2)), Vector3::new(fp_of_int(2), fp_of_int(4), fp_of_int(6)));
    assert_eq!(a.mul(b), Vector3::new(fp_of_int(4), fp_of_int(-10), fp_of_int(18)));
    // 1*4 - 2*5 + 3*6 = 12
    assert_eq!(a.dot(b), fp_of_int(12));
    assert_eq!(
        a.cross(b),
        Vector3::new(fp_of_int(2 * 6 - 3 * -5), fp_of_int(3 * 4 - 1 * 6), fp_of_int(1 * -5 - 2 * 4))
    );
}

#[test]
fn point_displacement_both_ways() {
    let v = Vector3::new(fp_of_int(5), fp_of_int(1), 0);
    let p = Point3::new(fp_of_int(2), fp_of_int(2), fp_of_int(2));
    assert_eq!(p.sub(v), Point3::new(fp_of_int(-3), fp_of_int(1), fp_of_int(2)));
    assert_eq!(v.sub_point(p), Point3::new(fp_of_int(3), fp_of_int(-1), fp_of_int(-2)));
}

#[test]
fn vector_length_and_normalize() {
    let v = Vector3::new(fp_of_int(3), fp_of_int(4), 0);
    assert_eq!(v.length_squared(), fp_of_int(25));
    assert_eq!(v.length(), fp_of_int(5));
    let n = v.normalize();
    // 3/5 and 4/5 truncated onto the fixed-point grid.
    assert_eq!(n, Vector3::new(39321, 52428, 0));
    assert_eq!(Vector3::zero().normalize(), Vector3::zero());
}
