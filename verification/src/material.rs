//! The closed set of surface materials and their scattering model.

use crate::fixed::add_s;
use crate::fixed::div_s;
use crate::fixed::fp_add;
use crate::fixed::fp_div;
use crate::fixed::fp_mul;
use crate::fixed::fp_neg;
use crate::fixed::fp_sqrt;
use crate::fixed::fp_sub;
use crate::fixed::mul_s;
use crate::fixed::neg_s;
use crate::fixed::sqrt_s;
use crate::fixed::sub_s;
use crate::fixed::FP_TWO;
use crate::fixed::SCALE;
use crate::hittable::HitRecord;
use crate::ray::Ray3;
use crate::rng::RandomSource;
use crate::vector::is_unit_sample;
use crate::vector::vadd;
use crate::vector::vdot;
use crate::vector::vneg;
use crate::vector::vnorm;
use crate::vector::vscale;
use crate::vector::vsub;
use crate::vector::Vector3;
use crate::vector_utils::near_zero_s;
use vstd::prelude::*;

verus! {

#[derive(Clone, Copy, Debug, PartialEq, Eq, Structural)]
pub enum Material {
    Lambertian { albedo: Vector3 },
    Metal { albedo: Vector3, fuzz: i64 },
    Dielectric { refraction_index: i64 },
}

/// Every channel within the unit colour range.
pub open spec fn unit_color_v(c: Vector3) -> bool {
    0 <= c.x <= SCALE && 0 <= c.y <= SCALE && 0 <= c.z <= SCALE
}

/// A well-formed material: albedo channels in the unit range, fuzz in the
/// unit range, refraction index positive.
pub open spec fn material_wf(m: Material) -> bool {
    match m {
        Material::Lambertian { albedo } => unit_color_v(albedo),
        Material::Metal { albedo, fuzz } => unit_color_v(albedo) && 0 <= fuzz <= SCALE,
        Material::Dielectric { refraction_index } => 0 < refraction_index,
    }
}

/// A scattered ray and the colour attenuation it carries.
#[derive(Clone, Copy, Debug, PartialEq, Eq, Structural)]
pub struct Scattered {
    pub scattered: Ray3,
    pub attenuation: Vector3,
}

/// Mirror reflection of `vector` about `normal`.
pub open spec fn reflect_s(vector: Vector3, normal: Vector3) -> Vector3 {
    vsub(vector, vscale(normal, mul_s(FP_TWO as int, vdot(vector, normal))))
}

/// Mirror reflection of `vector` about `normal`.
pub fn reflect(vector: Vector3, normal: Vector3) -> (r: Vector3)
    ensures
        r == reflect_s(vector, normal),
{
    vector.sub(normal.scale(fp_mul(FP_TWO, vector.dot(normal))))
}

/// The smaller of two scalars.
pub open spec fn min2_s(a: int, b: int) -> int {
    if a < b {
        a
    } else {
        b
    }
}

/// Snell refraction of the unit direction `vector` about `normal`.
pub open spec fn refract_s(vector: Vector3, normal: Vector3, refraction_ratio: int) -> Vector3 {
    let cos_theta = min2_s(vdot(vneg(vector), normal), SCALE as int);
    let r_perpendicular = vscale(vadd(vector, vscale(normal, cos_theta)), refraction_ratio);
    let k = sub_s(SCALE as int, vdot(r_perpendicular, r_perpendicular));
    let coef = neg_s(sqrt_s(crate::fixed::abs_s(k)));
    vadd(r_perpendicular, vscale(normal, coef))
}

/// Snell refraction of the unit direction `vector` about `normal`.
pub fn refract(vector: Vector3, normal: Vector3, refraction_ratio: i64) -> (r: Vector3)
    ensures
        r == refract_s(vector, normal, refraction_ratio as int),
{
    let d = vector.neg().dot(normal);
    let cos_theta = if d < SCALE {
        d
    } else {
        SCALE
    };
    let r_perpendicular = vector.add(normal.scale(cos_theta)).scale(refraction_ratio);
    let k = fp_sub(SCALE, r_perpendicular.length_squared());
    let ka = if k < 0 {
        fp_neg(k)
    } else {
        k
    };
    let coef = fp_neg(fp_sqrt(ka));
    proof {
        assert(crate::fixed::abs_s(k as int) == ka as int);
    }
    r_perpendicular.add(normal.scale(coef))
}

/// Head-on refraction is the identity: a direction arriving exactly
/// against an exactly unit normal passes straight through, whatever the
/// refraction ratio, since its perpendicular component vanishes.
pub proof fn lemma_refract_head_on(n: Vector3, refraction_ratio: int)
    requires
        crate::vector::vcomp_lim(n),
        vdot(n, n) == SCALE,
    ensures
        refract_s(vneg(n), n, refraction_ratio) == vneg(n),
{
    let v = vneg(n);
    assert(vneg(v) == n);
    assert(vdot(vneg(v), n) == SCALE);
    // Scaling by one is exact.
    crate::fixed::lemma_tdiv_exact(n.x as int, SCALE as int);
    crate::fixed::lemma_tdiv_exact(n.y as int, SCALE as int);
    crate::fixed::lemma_tdiv_exact(n.z as int, SCALE as int);
    assert(vscale(n, SCALE as int) == n);
    assert(vadd(v, vscale(n, SCALE as int)) == crate::vector::vzero());
    // The perpendicular part is the zero vector, for every ratio.
    crate::fixed::lemma_tdiv_zero(SCALE as int);
    assert(vscale(crate::vector::vzero(), refraction_ratio) == crate::vector::vzero());
    assert(vdot(crate::vector::vzero(), crate::vector::vzero()) == 0);
    // So the parallel part carries the whole direction through.
    assert(1 * 1 * (SCALE as int) == SCALE as int) by (nonlinear_arith);
    crate::fixed::lemma_sqrt_s_square_units(1);
    assert(n.x as int * (-(SCALE as int)) == (-(n.x as int)) * SCALE) by (nonlinear_arith);
    assert(n.y as int * (-(SCALE as int)) == (-(n.y as int)) * SCALE) by (nonlinear_arith);
    assert(n.z as int * (-(SCALE as int)) == (-(n.z as int)) * SCALE) by (nonlinear_arith);
    crate::fixed::lemma_tdiv_exact(-(n.x as int), SCALE as int);
    crate::fixed::lemma_tdiv_exact(-(n.y as int), SCALE as int);
    crate::fixed::lemma_tdiv_exact(-(n.z as int), SCALE as int);
    assert(vscale(n, neg_s(SCALE as int)) == v);
    assert(refract_s(v, n, refraction_ratio) == v);
}

/// Schlick's approximation of the Fresnel reflection coefficient.
pub open spec fn reflectance_s(cosine: int, refraction_index: int) -> int {
    let r0 = div_s(
        sub_s(SCALE as int, refraction_index),
        add_s(SCALE as int, refraction_index),
    );
    let r0sq = mul_s(r0, r0);
    add_s(r0sq, mul_s(sub_s(SCALE as int, r0sq), pow5_s(sub_s(SCALE as int, cosine))))
}

/// Fifth power, by repeated fixed-point multiplication.
pub open spec fn pow5_s(x: int) -> int {
    mul_s(mul_s(mul_s(mul_s(x, x), x), x), x)
}

fn reflectance(cosine: i64, refraction_index: i64) -> (r: i64)
    requires
        0 <= refraction_index,
    ensures
        r == reflectance_s(cosine as int, refraction_index as int),
{
    let r0 = fp_div(fp_sub(SCALE, refraction_index), fp_add(SCALE, refraction_index));
    let r0sq = fp_mul(r0, r0);
    let f = fp_sub(SCALE, cosine);
    let f5 = fp_mul(fp_mul(fp_mul(fp_mul(f, f), f), f), f);
    fp_add(r0sq, fp_mul(fp_sub(SCALE, r0sq), f5))
}

/// The diffuse scatter direction for a drawn unit sample `u`: the normal
/// nudged by `u`, or the bare normal when the sum degenerates.
pub open spec fn lambertian_dir_s(normal: Vector3, u: Vector3) -> Vector3 {
    let d = vadd(normal, u);
    if near_zero_s(d) {
        normal
    } else {
        d
    }
}

/// The metal scatter direction for a drawn unit sample `u`: the normalized
/// mirror reflection perturbed by `fuzz` times `u`.
pub open spec fn metal_dir_s(direction: Vector3, normal: Vector3, fuzz: int, u: Vector3) -> Vector3 {
    vadd(vnorm(reflect_s(direction, normal)), vscale(u, fuzz))
}

/// The dielectric scatter direction for a drawn threshold `q`: a forced
/// mirror reflection past the critical angle, else reflection or refraction
/// as Schlick's coefficient compares against `q`.
pub open spec fn dielectric_dir_s(direction: Vector3, record: HitRecord, refraction_index: int, q: int) -> Vector3 {
    let corrected = if record.front_face {
        div_s(SCALE as int, refraction_index)
    } else {
        refraction_index
    };
    let unit_direction = vnorm(direction);
    let cos_theta = min2_s(vdot(vneg(unit_direction), record.normal), SCALE as int);
    let sin_theta = sqrt_s(sub_s(SCALE as int, mul_s(cos_theta, cos_theta)));
    let cannot_refract = mul_s(corrected, sin_theta) > SCALE;
    if cannot_refract || reflectance_s(cos_theta, corrected) > q {
        reflect_s(unit_direction, record.normal)
    } else {
        refract_s(unit_direction, record.normal, corrected)
    }
}

/// What `Material::scatter` guarantees, whatever the random draws were.
pub open spec fn scatter_ok(
    m: Material,
    incident_ray: Ray3,
    record: HitRecord,
    result: Option<Scattered>,
) -> bool {
    match m {
        Material::Lambertian { albedo } => match result {
            Some(sc) => sc.attenuation == albedo && sc.scattered.origin == record.point
                && exists|u: Vector3|
                is_unit_sample(u) && sc.scattered.direction == lambertian_dir_s(record.normal, u),
            None => false,
        },
        Material::Metal { albedo, fuzz } => match result {
            Some(sc) => sc.attenuation == albedo && sc.scattered.origin == record.point
                && vdot(sc.scattered.direction, record.normal) > 0 && exists|u: Vector3|
                is_unit_sample(u) && sc.scattered.direction == metal_dir_s(
                    incident_ray.direction,
                    record.normal,
                    fuzz as int,
                    u,
                ),
            None => exists|u: Vector3|
                is_unit_sample(u) && vdot(
                    metal_dir_s(incident_ray.direction, record.normal, fuzz as int, u),
                    record.normal,
                ) <= 0,
        },
        Material::Dielectric { refraction_index } => match result {
            Some(sc) => sc.attenuation == (Vector3 { x: SCALE, y: SCALE, z: SCALE })
                && sc.scattered.origin == record.point && exists|q: int|
                0 <= q < SCALE && sc.scattered.direction == dielectric_dir_s(
                    incident_ray.direction,
                    record,
                    refraction_index as int,
                    q,
                ),
            None => false,
        },
    }
}

/// Lambertian and Metal scattering never carry a negative attenuation
/// channel, and Dielectric attenuation is exactly white: no colour is lost.
pub proof fn lemma_scatter_attenuation(
    m: Material,
    incident_ray: Ray3,
    record: HitRecord,
    result: Option<Scattered>,
)
    requires
        material_wf(m),
        scatter_ok(m, incident_ray, record, result),
    ensures
        match result {
            Some(sc) => unit_color_v(sc.attenuation),
            None => true,
        },
        match result {
            Some(sc) => 0 <= sc.attenuation.x && 0 <= sc.attenuation.y && 0 <= sc.attenuation.z,
            None => true,
        },
        match (m, result) {
            (Material::Dielectric { .. }, Some(sc)) => sc.attenuation == (Vector3 {
                x: SCALE,
                y: SCALE,
                z: SCALE,
            }),
            _ => true,
        },
{
}

/// The component-wise product of two unit-range colours stays in the unit
/// range: attenuation can only darken.
pub proof fn lemma_vmul_unit(a: Vector3, b: Vector3)
    requires
        unit_color_v(a),
        unit_color_v(b),
    ensures
        unit_color_v(crate::vector::vmul(a, b)),
{
    lemma_unit_channel_product(a.x as int, b.x as int);
    lemma_unit_channel_product(a.y as int, b.y as int);
    lemma_unit_channel_product(a.z as int, b.z as int);
}

/// The product of two unit-range channels stays in the unit range.
proof fn lemma_unit_channel_product(a: int, b: int)
    requires
        0 <= a <= SCALE,
        0 <= b <= SCALE,
    ensures
        0 <= mul_s(a, b) <= SCALE,
{
    assert(0 <= a * b <= SCALE as int * SCALE) by (nonlinear_arith)
        requires
            0 <= a <= SCALE,
            0 <= b <= SCALE,
    ;
    crate::fixed::lemma_tdiv_monotone(0, a * b, SCALE as int);
    crate::fixed::lemma_tdiv_monotone(a * b, SCALE as int * SCALE, SCALE as int);
    crate::fixed::lemma_tdiv_exact(SCALE as int, SCALE as int);
    crate::fixed::lemma_tdiv_zero(SCALE as int);
}

/// With no fuzz the metal scatter direction is deterministic: whatever unit
/// sample was drawn, it is the normalized mirror reflection.
pub proof fn lemma_metal_mirror(direction: Vector3, normal: Vector3, u: Vector3)
    ensures
        metal_dir_s(direction, normal, 0, u) == vnorm(reflect_s(direction, normal)),
{
    crate::fixed::lemma_tdiv_zero(SCALE as int);
    assert(u.x as int * 0 == 0) by (nonlinear_arith);
    assert(u.y as int * 0 == 0) by (nonlinear_arith);
    assert(u.z as int * 0 == 0) by (nonlinear_arith);
    assert(vscale(u, 0) == crate::vector::vzero());
    let w = vnorm(reflect_s(direction, normal));
    assert(vadd(w, crate::vector::vzero()) == w);
}

/// A fuzz-free metal that scatters always returns the ideal mirror
/// reflection of the incident direction.
pub proof fn lemma_metal_fuzzless_deterministic(
    albedo: Vector3,
    incident_ray: Ray3,
    record: HitRecord,
    result: Option<Scattered>,
)
    requires
        scatter_ok(Material::Metal { albedo, fuzz: 0 }, incident_ray, record, result),
    ensures
        match result {
            Some(sc) => sc.scattered.direction == vnorm(
                reflect_s(incident_ray.direction, record.normal),
            ),
            None => true,
        },
{
    match result {
        Some(sc) => {
            let u = choose|u: Vector3|
                is_unit_sample(u) && sc.scattered.direction == metal_dir_s(
                    incident_ray.direction,
                    record.normal,
                    0,
                    u,
                );
            lemma_metal_mirror(incident_ray.direction, record.normal, u);
        },
        None => {},
    }
}

impl Material {
    /// Decide whether the incident ray is absorbed or scattered, and how.
    pub fn scatter(
        self,
        incident_ray: Ray3,
        record: HitRecord,
        rs: &mut RandomSource,
    ) -> (result: Option<Scattered>)
        requires
            material_wf(self),
        ensures
            scatter_ok(self, incident_ray, record, result),
    {
        match self {
            Material::Lambertian { albedo } => {
                let u = crate::vector_utils::random_unit_vector(rs);
                let sum = record.normal.add(u);
                let scattered_direction = if crate::vector_utils::near_zero(sum) {
                    record.normal
                } else {
                    sum
                };
                proof {
                    assert(is_unit_sample(u) && scattered_direction == lambertian_dir_s(
                        record.normal,
                        u,
                    ));
                }
                Some(
                    Scattered {
                        scattered: Ray3 { origin: record.point, direction: scattered_direction },
                        attenuation: albedo,
                    },
                )
            },
            Material::Metal { albedo, fuzz } => {
                let u = crate::vector_utils::random_unit_vector(rs);
                let reflected_direction = reflect(incident_ray.direction, record.normal)
                    .normalize()
                    .add(u.scale(fuzz));
                proof {
                    assert(is_unit_sample(u) && reflected_direction == metal_dir_s(
                        incident_ray.direction,
                        record.normal,
                        fuzz as int,
                        u,
                    ));
                }
                if reflected_direction.dot(record.normal) > 0 {
                    Some(
                        Scattered {
                            scattered: Ray3 {
                                origin: record.point,
                                direction: reflected_direction,
                            },
                            attenuation: albedo,
                        },
                    )
                } else {
                    None
                }
            },
            Material::Dielectric { refraction_index } => {
                let attenuation = Vector3 { x: SCALE, y: SCALE, z: SCALE };
                let corrected = if record.front_face {
                    fp_div(SCALE, refraction_index)
                } else {
                    refraction_index
                };
                let unit_direction = incident_ray.direction.normalize();

                let d = unit_direction.neg().dot(record.normal);
                let cos_theta = if d < SCALE {
                    d
                } else {
                    SCALE
                };
                let sin_theta = fp_sqrt(fp_sub(SCALE, fp_mul(cos_theta, cos_theta)));

                let cannot_refract = fp_mul(corrected, sin_theta) > SCALE;

                proof {
                    crate::fixed::lemma_div_s_nonneg(SCALE as int, refraction_index as int);
                }
                let q = rs.next_in(0, SCALE);
                let direction = if cannot_refract || reflectance(cos_theta, corrected) > q {
                    reflect(unit_direction, record.normal)
                } else {
                    refract(unit_direction, record.normal, corrected)
                };
                proof {
                    assert(0 <= q < SCALE && direction == dielectric_dir_s(
                        incident_ray.direction,
                        record,
                        refraction_index as int,
                        q as int,
                    ));
                }
                Some(
                    Scattered {
                        scattered: Ray3 { origin: record.point, direction },
                        attenuation,
                    },
                )
            },
        }
    }
}

} // verus!
