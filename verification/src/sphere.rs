//! The sphere primitive and its ray-intersection contract.

use crate::fixed::add_s;
use crate::fixed::div_s;
use crate::fixed::fp_add;
use crate::fixed::fp_div;
use crate::fixed::fp_mul;
use crate::fixed::fp_sqrt;
use crate::fixed::fp_sub;
use crate::fixed::mul_s;
use crate::fixed::sqrt_s;
use crate::fixed::sub_s;
use crate::fixed::SCALE;
use crate::hittable::make_record_s;
use crate::hittable::HitRecord;
use crate::hittable::Hittable;
use crate::interval::Interval;
use crate::material::Material;
use crate::ray::ray_at_s;
use crate::ray::Ray3;
use crate::vector::vdivs;
use crate::vector::vdot;
use crate::vector::vsub;
use crate::vector::Vector3;
use vstd::prelude::*;

verus! {

#[derive(Clone, Copy, Debug, PartialEq, Eq, Structural)]
pub struct Sphere {
    pub center: Vector3,
    pub radius: i64,
    pub material: Material,
}

impl Sphere {
    /// A sphere with its radius clamped to be non-negative.
    pub fn new(center: Vector3, radius: i64, material: Material) -> (s: Sphere)
        ensures
            s.center == center,
            s.material == material,
            s.radius == (if radius < 0 {
                0i64
            } else {
                radius
            }),
    {
        Sphere {
            center,
            radius: if radius < 0 {
                0
            } else {
                radius
            },
            material,
        }
    }
}

/// Squared length of the ray direction, the quadratic's leading coefficient.
pub open spec fn hit_a_s(s: Sphere, ray: Ray3) -> int {
    vdot(ray.direction, ray.direction)
}

/// Half the negated linear coefficient of the quadratic.
pub open spec fn hit_h_s(s: Sphere, ray: Ray3) -> int {
    vdot(ray.direction, vsub(s.center, ray.origin))
}

/// The quadratic's constant coefficient.
pub open spec fn hit_c_s(s: Sphere, ray: Ray3) -> int {
    sub_s(
        vdot(vsub(s.center, ray.origin), vsub(s.center, ray.origin)),
        mul_s(s.radius as int, s.radius as int),
    )
}

/// The reduced discriminant of the intersection quadratic.
pub open spec fn hit_disc_s(s: Sphere, ray: Ray3) -> int {
    sub_s(mul_s(hit_h_s(s, ray), hit_h_s(s, ray)), mul_s(hit_a_s(s, ray), hit_c_s(s, ray)))
}

/// The smaller root of the quadratic.
pub open spec fn hit_root0_s(s: Sphere, ray: Ray3) -> int {
    div_s(sub_s(hit_h_s(s, ray), sqrt_s(hit_disc_s(s, ray))), hit_a_s(s, ray))
}

/// The larger root of the quadratic.
pub open spec fn hit_root1_s(s: Sphere, ray: Ray3) -> int {
    div_s(add_s(hit_h_s(s, ray), sqrt_s(hit_disc_s(s, ray))), hit_a_s(s, ray))
}

/// The record produced for an intersection of the sphere at parameter `t`.
pub open spec fn sphere_rec_s(s: Sphere, ray: Ray3, t: int) -> HitRecord {
    let point = ray_at_s(ray, t);
    let outward = vdivs(vsub(point, s.center), s.radius as int);
    make_record_s(point, outward, t as i64, s.material, ray)
}

/// What `Sphere::hit` returns: the record at the smaller quadratic root if
/// it lies in the half-open interval, else at the larger root if that one
/// does, else nothing. A degenerate sphere or ray intersects nothing.
pub open spec fn sphere_hit_s(s: Sphere, ray: Ray3, interval: Interval) -> Option<HitRecord> {
    if s.radius <= 0 || hit_a_s(s, ray) <= 0 {
        None::<HitRecord>
    } else if hit_disc_s(s, ray) < 0 {
        None::<HitRecord>
    } else {
        let root0 = hit_root0_s(s, ray);
        let root1 = hit_root1_s(s, ray);
        if interval.min <= root0 < interval.max {
            Some(sphere_rec_s(s, ray, root0))
        } else if interval.min <= root1 < interval.max {
            Some(sphere_rec_s(s, ray, root1))
        } else {
            None::<HitRecord>
        }
    }
}

impl Sphere {
    /// Solve the intersection quadratic by its reduced discriminant and
    /// return the record of the nearest root inside the interval.
    pub fn hit(&self, ray: Ray3, interval: Interval) -> (result: Option<HitRecord>)
        ensures
            result == sphere_hit_s(*self, ray, interval),
    {
        if self.radius <= 0 {
            return None;
        }
        let vect_oc = self.center.sub(ray.origin);
        let a = ray.direction.length_squared();
        if a <= 0 {
            return None;
        }
        let h = ray.direction.dot(vect_oc);
        let c = fp_sub(vect_oc.length_squared(), fp_mul(self.radius, self.radius));

        let discriminant = fp_sub(fp_mul(h, h), fp_mul(a, c));
        if discriminant < 0 {
            return None;
        }

        let sqrtd = fp_sqrt(discriminant);
        let mut root = fp_div(fp_sub(h, sqrtd), a);

        if !(interval.min <= root && root < interval.max) {
            root = fp_div(fp_add(h, sqrtd), a);
            if !(interval.min <= root && root < interval.max) {
                return None;
            }
        }

        let t = root;
        let point = ray.at(t);
        let outward_normal = point.sub(self.center).div_scalar(self.radius);

        let record = HitRecord::with_face_normal(point, outward_normal, t, self.material, ray);

        Some(record)
    }
}

/// The parameter of a returned record lies in the query interval.
pub proof fn lemma_sphere_hit_t_in_interval(s: Sphere, ray: Ray3, interval: Interval)
    ensures
        match sphere_hit_s(s, ray, interval) {
            Some(rec) => interval.min <= rec.t < interval.max,
            None => true,
        },
{
}

/// Every record a sphere produces carries a normal oriented against the
/// ray: a front-face hit has the ray arriving strictly against the raw
/// outward normal, and the stored normal's dot product with the ray
/// direction is never positive.
pub proof fn lemma_sphere_record_normal_opposes(s: Sphere, ray: Ray3, interval: Interval)
    ensures
        match sphere_hit_s(s, ray, interval) {
            Some(rec) => vdot(ray.direction, rec.normal) <= 0 && (rec.front_face ==> vdot(
                ray.direction,
                rec.normal,
            ) < 0),
            None => true,
        },
{
    match sphere_hit_s(s, ray, interval) {
        Some(rec) => {
            let root0 = hit_root0_s(s, ray);
            let root1 = hit_root1_s(s, ray);
            let t = if interval.min <= root0 < interval.max {
                root0
            } else {
                root1
            };
            let outward = vdivs(vsub(ray_at_s(ray, t), s.center), s.radius as int);
            assert(crate::vector::vcomp_lim(outward));
            crate::hittable::lemma_face_normal_opposes(ray, outward);
        },
        None => {},
    }
}

/// The smaller root never exceeds the larger one.
pub proof fn lemma_sphere_roots_ordered(s: Sphere, ray: Ray3)
    requires
        hit_a_s(s, ray) > 0,
    ensures
        hit_root0_s(s, ray) <= hit_root1_s(s, ray),
{
    let h = hit_h_s(s, ray);
    let sq = sqrt_s(hit_disc_s(s, ray));
    crate::fixed::lemma_sqrt_s_nonneg(hit_disc_s(s, ray));
    assert(sub_s(h, sq) <= add_s(h, sq));
    crate::fixed::lemma_div_s_monotone(sub_s(h, sq), add_s(h, sq), hit_a_s(s, ray));
}

/// Narrowing the upper bound of the query interval keeps exactly the hits
/// whose parameter still lies below it: the aggregate's progressive
/// narrowing loses no nearer hit and invents none.
pub proof fn lemma_sphere_hit_narrow(s: Sphere, ray: Ray3, min: i64, max1: i64, max2: i64)
    requires
        max2 <= max1,
    ensures
        sphere_hit_s(s, ray, Interval { min, max: max2 }) == (match sphere_hit_s(
            s,
            ray,
            Interval { min, max: max1 },
        ) {
            Some(rec) => if rec.t < max2 {
                Some(rec)
            } else {
                None::<HitRecord>
            },
            None => None::<HitRecord>,
        }),
{
    if s.radius <= 0 || hit_a_s(s, ray) <= 0 || hit_disc_s(s, ray) < 0 {
    } else {
        lemma_sphere_roots_ordered(s, ray);
        let root0 = hit_root0_s(s, ray);
        let root1 = hit_root1_s(s, ray);
        if min <= root0 < max1 {
            assert(sphere_rec_s(s, ray, root0).t == root0);
        } else if min <= root1 < max1 {
            assert(root0 < min);
            assert(sphere_rec_s(s, ray, root1).t == root1);
        } else {
        }
    }
}

/// A ray offset sideways from a sphere's centre by more than the radius
/// misses it: the hit query returns nothing for every interval. The offset
/// `b` and radius `r` count steps of one 256th of a unit, so the family
/// covers every offset and radius on that grid.
pub proof fn lemma_offset_ray_misses(b: i64, r: i64, material: Material, interval: Interval)
    requires
        0 < r < b <= 16777216,
    ensures
        sphere_hit_s(
            Sphere {
                center: Vector3 { x: 0, y: 0, z: 0 },
                radius: (r * 256) as i64,
                material,
            },
            Ray3 {
                origin: Vector3 { x: (b * 256) as i64, y: 0, z: 0 },
                direction: Vector3 { x: 0, y: 0, z: -65536i64 },
            },
            interval,
        ) is None,
{
    let s = Sphere {
        center: Vector3 { x: 0, y: 0, z: 0 },
        radius: (r * 256) as i64,
        material,
    };
    let ray = Ray3 {
        origin: Vector3 { x: (b * 256) as i64, y: 0, z: 0 },
        direction: Vector3 { x: 0, y: 0, z: -65536i64 },
    };
    let bi = b as int;
    let ri = r as int;
    crate::fixed::lemma_tdiv_zero(SCALE as int);
    assert(0 * (bi * 256) == 0) by (nonlinear_arith);

    // The leading coefficient is one: the direction is a unit vector.
    crate::fixed::lemma_mul_s_units(-1, -1);
    assert(hit_a_s(s, ray) == SCALE);

    // The linear coefficient vanishes: the direction is orthogonal to the
    // offset.
    let oc = vsub(s.center, ray.origin);
    assert(oc == (Vector3 { x: (-b * 256) as i64, y: 0, z: 0 }));
    assert(hit_h_s(s, ray) == 0);

    // The constant coefficient is the squared offset less the squared
    // radius, positive since the offset exceeds the radius.
    assert((-bi) * (-bi) == bi * bi && 0 < bi * bi <= 1152921504606846976)
        by (nonlinear_arith)
        requires
            0 < bi <= 16777216,
    ;
    crate::fixed::lemma_mul_s_grid(-bi, -bi);
    assert(0 < ri * ri <= 1152921504606846976) by (nonlinear_arith)
        requires
            0 < ri <= 16777216,
    ;
    crate::fixed::lemma_mul_s_grid(ri, ri);
    assert(ri * ri < bi * bi) by (nonlinear_arith)
        requires
            0 < ri < bi,
    ;
    assert(hit_c_s(s, ray) == bi * bi - ri * ri);

    // So the reduced discriminant is negative.
    crate::fixed::lemma_mul_s_one(bi * bi - ri * ri);
    assert(hit_disc_s(s, ray) < 0);
}

/// A ray aimed straight at a sphere from outside always hits it: the
/// returned parameter is positive, the hit is a front face, and the stored
/// normal is exactly unit length and points back toward the ray origin.
/// The distance `d` and radius `r` count steps of one 256th of a unit, so
/// the family covers every distance and radius on that grid, the ray along
/// the negative z axis.
pub proof fn lemma_axial_ray_hits(d: i64, r: i64, material: Material)
    requires
        0 < r < d <= 16777216,
    ensures
        match sphere_hit_s(
            Sphere {
                center: Vector3 { x: 0, y: 0, z: (-d * 256) as i64 },
                radius: (r * 256) as i64,
                material,
            },
            Ray3 {
                origin: Vector3 { x: 0, y: 0, z: 0 },
                direction: Vector3 { x: 0, y: 0, z: -65536i64 },
            },
            Interval { min: crate::ray::T_EPSILON, max: crate::ray::T_MAX },
        ) {
            Some(rec) => {
                &&& rec.t == (d - r) * 256
                &&& rec.t > 0
                &&& rec.front_face
                &&& rec.normal == (Vector3 { x: 0, y: 0, z: 65536i64 })
                &&& vdot(rec.normal, rec.normal) == SCALE
            },
            None => false,
        },
{
    let s = Sphere {
        center: Vector3 { x: 0, y: 0, z: (-d * 256) as i64 },
        radius: (r * 256) as i64,
        material,
    };
    let ray = Ray3 {
        origin: Vector3 { x: 0, y: 0, z: 0 },
        direction: Vector3 { x: 0, y: 0, z: -65536i64 },
    };
    let interval = Interval { min: crate::ray::T_EPSILON, max: crate::ray::T_MAX };
    let di = d as int;
    let ri = r as int;
    crate::fixed::lemma_tdiv_zero(SCALE as int);

    // The leading coefficient is one.
    crate::fixed::lemma_mul_s_units(-1, -1);
    assert(hit_a_s(s, ray) == SCALE);

    // The offset to the centre lies along the axis.
    let oc = vsub(s.center, ray.origin);
    assert(oc == (Vector3 { x: 0, y: 0, z: (-d * 256) as i64 }));

    // The linear coefficient is the distance to the centre.
    assert((-(SCALE as int)) * (-(di * 256)) == (di * 256) * SCALE) by (nonlinear_arith);
    crate::fixed::lemma_tdiv_exact(di * 256, SCALE as int);
    assert(hit_h_s(s, ray) == di * 256);

    // The constant coefficient is the squared distance less the squared
    // radius.
    assert((-di) * (-di) == di * di && 0 < di * di <= 1152921504606846976)
        by (nonlinear_arith)
        requires
            0 < di <= 16777216,
    ;
    crate::fixed::lemma_mul_s_grid(-di, -di);
    assert(0 < ri * ri <= 1152921504606846976) by (nonlinear_arith)
        requires
            0 < ri <= 16777216,
    ;
    crate::fixed::lemma_mul_s_grid(ri, ri);
    assert(ri * ri < di * di) by (nonlinear_arith)
        requires
            0 < ri < di,
    ;
    assert(hit_c_s(s, ray) == di * di - ri * ri);

    // The reduced discriminant is the squared radius.
    crate::fixed::lemma_mul_s_grid(di, di);
    crate::fixed::lemma_mul_s_one(di * di - ri * ri);
    assert(hit_disc_s(s, ray) == ri * ri);

    // Its square root is the radius itself.
    crate::fixed::lemma_sqrt_s_square_grid(ri);
    assert(sqrt_s(hit_disc_s(s, ray)) == ri * 256);

    // The smaller root is the distance to the near surface.
    crate::fixed::lemma_div_s_by_one((di - ri) * 256);
    let t = (di - ri) * 256;
    assert(0 < t <= 1152921504606846976) by (nonlinear_arith)
        requires
            0 < ri < di <= 16777216,
            t == (di - ri) * 256,
    ;
    assert(hit_root0_s(s, ray) == t);
    assert(t >= 256) by (nonlinear_arith)
        requires
            ri < di,
            t == (di - ri) * 256,
    ;
    assert(interval.min <= t < interval.max);
    assert(sphere_hit_s(s, ray, interval) == Some(sphere_rec_s(s, ray, t)));

    // The hit point lies on the near surface along the axis.
    assert((-(SCALE as int)) * t == (-t) * SCALE) by (nonlinear_arith);
    crate::fixed::lemma_tdiv_exact(-t, SCALE as int);
    assert(0 * t == 0) by (nonlinear_arith);
    let point = ray_at_s(ray, t);
    assert(point == (Vector3 { x: 0, y: 0, z: (-(di - ri) * 256) as i64 }));

    // The outward normal is the unit vector along the axis.
    assert(-(di - ri) * 256 - (-di * 256) == ri * 256) by (nonlinear_arith);
    let lifted = vsub(point, s.center);
    assert(lifted == (Vector3 { x: 0, y: 0, z: (r * 256) as i64 }));
    assert(1 * (ri * 256) == ri * 256) by (nonlinear_arith);
    crate::fixed::lemma_div_s_units(1, ri * 256);
    crate::fixed::lemma_tdiv_zero(ri * 256);
    assert(0 * SCALE == 0) by (nonlinear_arith);
    let outward = vdivs(lifted, (r * 256) as i64 as int);
    assert(outward == (Vector3 { x: 0, y: 0, z: 65536i64 }));

    // The ray arrives against the normal: a front face, and the normal is
    // exactly unit length.
    assert((-1) * 1 * SCALE == -SCALE) by (nonlinear_arith);
    crate::fixed::lemma_mul_s_units(-1, 1);
    assert(vdot(ray.direction, outward) == -SCALE);
    assert(1 * 1 * SCALE == SCALE as int) by (nonlinear_arith);
    crate::fixed::lemma_mul_s_units(1, 1);
    assert(vdot(outward, outward) == SCALE);
}

impl Hittable for Sphere {
    fn hit(&self, ray: Ray3, interval: Interval) -> Option<HitRecord> {
        Sphere::hit(self, ray, interval)
    }
}

} // verus!
