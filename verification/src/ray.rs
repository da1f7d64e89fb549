//! Rays and the recursive ray-colour evaluator.

use crate::fixed::add_s;
use crate::fixed::mul_s;
use crate::fixed::sub_s;
use crate::fixed::FP_HALF;
use crate::fixed::SCALE;
use crate::hittable::list_hit_s;
use crate::hittable::scene_wf;
use crate::hittable::HittableList;
use crate::interval::Interval;
use crate::sphere::Sphere;
use crate::rng::RandomSource;
use crate::vector::vadd;
use crate::vector::vnorm;
use crate::vector::vscale;
use crate::vector::vzero;
use crate::vector::Vector3;
use vstd::prelude::*;

verus! {

/// Lower bound of every scene query: the shadow-acne epsilon, the
/// fixed-point value of one thousandth.
pub const T_EPSILON: i64 = 65;

/// Upper bound of every scene query, standing in for infinity.
pub const T_MAX: i64 = 1152921504606846976;


#[derive(Clone, Copy, Debug, PartialEq, Eq, Structural)]
pub struct Ray3 {
    pub origin: Vector3,
    pub direction: Vector3,
}

/// The point reached after parameter `t` along the ray.
pub open spec fn ray_at_s(r: Ray3, t: int) -> Vector3 {
    vadd(r.origin, vscale(r.direction, t))
}

impl Ray3 {
    pub fn new(origin: Vector3, direction: Vector3) -> (r: Ray3)
        ensures
            r == (Ray3 { origin, direction }),
    {
        Ray3 { origin, direction }
    }

    pub fn at(&self, t: i64) -> (p: Vector3)
        ensures
            p == ray_at_s(*self, t as int),
    {
        self.origin.add(self.direction.scale(t))
    }

    /// The colour carried back along the ray: black once the bounce budget
    /// is spent, the sky gradient where nothing is hit, else the struck
    /// material's attenuation times the colour of the scattered ray.
    pub fn color(
        self,
        depth: i32,
        world: &HittableList,
        rs: &mut RandomSource,
    ) -> (c: Vector3)
        requires
            scene_wf(world.objects@),
        ensures
            color_possible(self, depth as int, world.objects@, c),
            crate::material::unit_color_v(c),
            depth <= 0 ==> c == vzero(),
            depth > 0 && list_hit_s(
                world.objects@,
                self,
                Interval { min: T_EPSILON, max: T_MAX },
            ) is None ==> c == background_s(self),
        decreases depth,
    {
        if depth <= 0 {
            return Vector3::zero();
        }
        match world.hit(self, Interval::new(T_EPSILON, T_MAX)) {
            Some(record) => {
                proof {
                    crate::hittable::lemma_list_hit_material(
                        world.objects@,
                        self,
                        Interval { min: T_EPSILON, max: T_MAX },
                    );
                    let i = choose|i: int|
                        0 <= i < world.objects@.len() && record.material
                            == #[trigger] world.objects@[i].material;
                    assert(crate::material::material_wf(record.material));
                }
                let outcome = record.material.scatter(self, record, rs);
                match outcome {
                    Some(sc) => {
                        let rest = sc.scattered.color(depth - 1, world, rs);
                        let c = sc.attenuation.mul(rest);
                        proof {
                            assert(color_possible(
                                sc.scattered,
                                depth as int - 1,
                                world.objects@,
                                rest,
                            ) && c == crate::vector::vmul(sc.attenuation, rest));
                            assert(crate::material::scatter_ok(
                                record.material,
                                self,
                                record,
                                outcome,
                            ));
                            crate::material::lemma_scatter_attenuation(
                                record.material,
                                self,
                                record,
                                outcome,
                            );
                            crate::material::lemma_vmul_unit(sc.attenuation, rest);
                        }
                        c
                    },
                    None => {
                        proof {
                            assert(crate::material::scatter_ok(
                                record.material,
                                self,
                                record,
                                outcome,
                            ));
                        }
                        Vector3::zero()
                    },
                }
            },
            None => background_color(self),
        }
    }
}

/// The complete characterization of the ray-colour evaluator, with the
/// randomness of scattering left open: black once the bounce budget is
/// spent; the sky gradient where the scene query finds nothing; else, for
/// some scatter outcome the struck material admits, black on absorption or
/// the attenuated colour of a possible evaluation of the scattered ray.
pub open spec fn color_possible(ray: Ray3, depth: int, objects: Seq<Sphere>, c: Vector3) -> bool
    decreases
            (if depth <= 0 {
                0int
            } else {
                depth
            }),
{
    if depth <= 0 {
        c == vzero()
    } else {
        match list_hit_s(objects, ray, Interval { min: T_EPSILON, max: T_MAX }) {
            None => c == background_s(ray),
            Some(rec) => exists|result: Option<crate::material::Scattered>|
                crate::material::scatter_ok(rec.material, ray, rec, result) && match result {
                    None => c == vzero(),
                    Some(sc) => exists|rest: Vector3|
                        color_possible(sc.scattered, depth - 1, objects, rest) && c
                            == crate::vector::vmul(sc.attenuation, rest),
                },
        }
    }
}

/// The sky gradient: interpolation from white to sky blue by the height of
/// the normalized ray direction. The mixing weight is clamped into the
/// unit range, so the gradient is always an interpolation and never an
/// extrapolation, whatever length normalization gave the direction.
pub open spec fn background_s(ray: Ray3) -> Vector3 {
    let unit_dir = vnorm(ray.direction);
    let a = crate::color::clamp01_s(mul_s(FP_HALF as int, add_s(unit_dir.y as int, SCALE as int)));
    vadd(
        vscale(white_s(), sub_s(SCALE as int, a)),
        vscale(sky_blue_s(), a),
    )
}

/// The sky gradient is a true interpolation: every channel lies in the
/// unit colour range.
pub proof fn lemma_background_in_range(ray: Ray3)
    ensures
        crate::material::unit_color_v(background_s(ray)),
{
    let a = crate::color::clamp01_s(
        mul_s(FP_HALF as int, add_s(vnorm(ray.direction).y as int, SCALE as int)),
    );
    assert(0 <= a <= SCALE);
    // The white term contributes exactly one minus the weight per channel.
    assert((SCALE as int) * (SCALE - a) == (SCALE - a) * SCALE) by (nonlinear_arith);
    crate::fixed::lemma_tdiv_exact(SCALE - a, SCALE as int);
    assert(mul_s(SCALE as int, SCALE - a) == SCALE - a);
    // Each sky channel contributes at least zero and at most the weight.
    assert((SCALE as int) * a == a * SCALE) by (nonlinear_arith);
    crate::fixed::lemma_tdiv_exact(a, SCALE as int);
    lemma_sky_channel_bounded(32768, a);
    lemma_sky_channel_bounded(45875, a);
    lemma_sky_channel_bounded(65536, a);
}

/// A channel value in the unit range scaled by a weight in the unit range
/// stays between zero and the weight.
proof fn lemma_sky_channel_bounded(channel: int, a: int)
    requires
        0 <= channel <= SCALE,
        0 <= a <= SCALE,
    ensures
        0 <= mul_s(channel, a) <= a,
{
    assert(0 <= channel * a <= SCALE as int * a) by (nonlinear_arith)
        requires
            0 <= channel <= SCALE,
            0 <= a,
    ;
    crate::fixed::lemma_tdiv_monotone(0, channel * a, SCALE as int);
    crate::fixed::lemma_tdiv_monotone(channel * a, SCALE as int * a, SCALE as int);
    assert(SCALE as int * a == a * SCALE) by (nonlinear_arith);
    crate::fixed::lemma_tdiv_exact(a, SCALE as int);
    crate::fixed::lemma_tdiv_zero(SCALE as int);
}

pub open spec fn white_s() -> Vector3 {
    Vector3 { x: SCALE, y: SCALE, z: SCALE }
}

/// The sky-blue horizon colour, half red, seven tenths green, full blue.
pub open spec fn sky_blue_s() -> Vector3 {
    Vector3 { x: 32768, y: 45875, z: 65536 }
}

/// The sky gradient a ray sees where it leaves the scene.
pub fn background_color(ray: Ray3) -> (c: Vector3)
    ensures
        c == background_s(ray),
        crate::material::unit_color_v(c),
{
    proof {
        lemma_background_in_range(ray);
    }
    let unit_dir = ray.direction.normalize();
    let a = crate::color::clamp01(
        crate::fixed::fp_mul(FP_HALF, crate::fixed::fp_add(unit_dir.y, SCALE)),
    );
    let white = Vector3 { x: SCALE, y: SCALE, z: SCALE };
    let sky_blue = Vector3 { x: 32768, y: 45875, z: 65536 };
    white.scale(crate::fixed::fp_sub(SCALE, a)).add(sky_blue.scale(a))
}

} // verus!
