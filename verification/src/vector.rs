//! Three-component fixed-point vectors.
//!
//! `Vector3` is the workhorse of the renderer: positions, directions and
//! colours are all held as three fixed-point scalars. Every executable
//! operation is pinned to a spec-level mirror (`vadd`, `vdot`, ...) built
//! from the scalar mirrors in `fixed`.

use crate::fixed::add_s;
use crate::fixed::div_s;
use crate::fixed::fp_add;
use crate::fixed::fp_div;
use crate::fixed::fp_mul;
use crate::fixed::fp_neg;
use crate::fixed::fp_sqrt;
use crate::fixed::fp_sub;
use crate::fixed::mul_s;
use crate::fixed::neg_s;
use crate::fixed::sqrt_s;
use crate::fixed::sub_s;
use crate::rng::RandomSource;
use vstd::prelude::*;

verus! {

#[derive(Clone, Copy, Debug, Default, PartialEq, Eq, Structural)]
pub struct Vector3 {
    pub x: i64,
    pub y: i64,
    pub z: i64,
}

pub open spec fn vzero() -> Vector3 {
    Vector3 { x: 0, y: 0, z: 0 }
}

pub open spec fn vadd(a: Vector3, b: Vector3) -> Vector3 {
    Vector3 {
        x: add_s(a.x as int, b.x as int) as i64,
        y: add_s(a.y as int, b.y as int) as i64,
        z: add_s(a.z as int, b.z as int) as i64,
    }
}

pub open spec fn vsub(a: Vector3, b: Vector3) -> Vector3 {
    Vector3 {
        x: sub_s(a.x as int, b.x as int) as i64,
        y: sub_s(a.y as int, b.y as int) as i64,
        z: sub_s(a.z as int, b.z as int) as i64,
    }
}

pub open spec fn vneg(a: Vector3) -> Vector3 {
    Vector3 {
        x: neg_s(a.x as int) as i64,
        y: neg_s(a.y as int) as i64,
        z: neg_s(a.z as int) as i64,
    }
}

/// Scale by a fixed-point scalar.
pub open spec fn vscale(a: Vector3, s: int) -> Vector3 {
    Vector3 {
        x: mul_s(a.x as int, s) as i64,
        y: mul_s(a.y as int, s) as i64,
        z: mul_s(a.z as int, s) as i64,
    }
}

/// Component-wise product, as used for colour attenuation.
pub open spec fn vmul(a: Vector3, b: Vector3) -> Vector3 {
    Vector3 {
        x: mul_s(a.x as int, b.x as int) as i64,
        y: mul_s(a.y as int, b.y as int) as i64,
        z: mul_s(a.z as int, b.z as int) as i64,
    }
}

pub open spec fn vdot(a: Vector3, b: Vector3) -> int {
    add_s(
        add_s(mul_s(a.x as int, b.x as int), mul_s(a.y as int, b.y as int)),
        mul_s(a.z as int, b.z as int),
    )
}

pub open spec fn vlen(a: Vector3) -> int {
    sqrt_s(vdot(a, a))
}

pub open spec fn vnorm(a: Vector3) -> Vector3 {
    if vlen(a) == 0 {
        vzero()
    } else {
        Vector3 {
            x: div_s(a.x as int, vlen(a)) as i64,
            y: div_s(a.y as int, vlen(a)) as i64,
            z: div_s(a.z as int, vlen(a)) as i64,
        }
    }
}

/// Divide every component by a fixed-point scalar.
pub open spec fn vdivs(a: Vector3, d: int) -> Vector3 {
    Vector3 {
        x: div_s(a.x as int, d) as i64,
        y: div_s(a.y as int, d) as i64,
        z: div_s(a.z as int, d) as i64,
    }
}

pub open spec fn vcross(a: Vector3, b: Vector3) -> Vector3 {
    Vector3 {
        x: sub_s(mul_s(a.y as int, b.z as int), mul_s(a.z as int, b.y as int)) as i64,
        y: sub_s(mul_s(a.z as int, b.x as int), mul_s(a.x as int, b.z as int)) as i64,
        z: sub_s(mul_s(a.x as int, b.y as int), mul_s(a.y as int, b.x as int)) as i64,
    }
}

impl Vector3 {
    pub fn new(x: i64, y: i64, z: i64) -> (r: Vector3)
        ensures
            r == (Vector3 { x, y, z }),
    {
        Vector3 { x, y, z }
    }

    pub fn zero() -> (r: Vector3)
        ensures
            r == vzero(),
    {
        Vector3 { x: 0, y: 0, z: 0 }
    }

    pub fn add(self, o: Vector3) -> (r: Vector3)
        ensures
            r == vadd(self, o),
    {
        Vector3 { x: fp_add(self.x, o.x), y: fp_add(self.y, o.y), z: fp_add(self.z, o.z) }
    }

    pub fn sub(self, o: Vector3) -> (r: Vector3)
        ensures
            r == vsub(self, o),
    {
        Vector3 { x: fp_sub(self.x, o.x), y: fp_sub(self.y, o.y), z: fp_sub(self.z, o.z) }
    }

    pub fn neg(self) -> (r: Vector3)
        ensures
            r == vneg(self),
    {
        Vector3 { x: fp_neg(self.x), y: fp_neg(self.y), z: fp_neg(self.z) }
    }

    pub fn scale(self, s: i64) -> (r: Vector3)
        ensures
            r == vscale(self, s as int),
    {
        Vector3 { x: fp_mul(self.x, s), y: fp_mul(self.y, s), z: fp_mul(self.z, s) }
    }

    pub fn mul(self, o: Vector3) -> (r: Vector3)
        ensures
            r == vmul(self, o),
    {
        Vector3 { x: fp_mul(self.x, o.x), y: fp_mul(self.y, o.y), z: fp_mul(self.z, o.z) }
    }

    pub fn dot(self, o: Vector3) -> (r: i64)
        ensures
            r == vdot(self, o),
    {
        fp_add(fp_add(fp_mul(self.x, o.x), fp_mul(self.y, o.y)), fp_mul(self.z, o.z))
    }

    pub fn length_squared(self) -> (r: i64)
        ensures
            r == vdot(self, self),
    {
        self.dot(self)
    }

    pub fn length(self) -> (r: i64)
        ensures
            r == vlen(self),
    {
        fp_sqrt(self.length_squared())
    }

    pub fn normalize(self) -> (r: Vector3)
        ensures
            r == vnorm(self),
    {
        let len = self.length();
        if len == 0 {
            Vector3 { x: 0, y: 0, z: 0 }
        } else {
            Vector3 {
                x: fp_div(self.x, len),
                y: fp_div(self.y, len),
                z: fp_div(self.z, len),
            }
        }
    }

    pub fn div_scalar(self, d: i64) -> (r: Vector3)
        requires
            d != 0,
        ensures
            r == vdivs(self, d as int),
    {
        Vector3 { x: fp_div(self.x, d), y: fp_div(self.y, d), z: fp_div(self.z, d) }
    }

    pub fn cross(self, o: Vector3) -> (r: Vector3)
        ensures
            r == vcross(self, o),
    {
        Vector3 {
            x: fp_sub(fp_mul(self.y, o.z), fp_mul(self.z, o.y)),
            y: fp_sub(fp_mul(self.z, o.x), fp_mul(self.x, o.z)),
            z: fp_sub(fp_mul(self.x, o.y), fp_mul(self.y, o.x)),
        }
    }
}

/// Every component of the vector is within the saturation bound, as holds
/// of every vector an operation of this crate produces.
pub open spec fn vcomp_lim(v: Vector3) -> bool {
    crate::fixed::in_lim(v.x as int) && crate::fixed::in_lim(v.y as int) && crate::fixed::in_lim(
        v.z as int,
    )
}

/// Negating one argument of the dot product negates it, for vectors within
/// the saturation bound.
pub proof fn lemma_vdot_neg(a: Vector3, b: Vector3)
    requires
        vcomp_lim(b),
    ensures
        vdot(a, vneg(b)) == -vdot(a, b),
{
    crate::fixed::lemma_tdiv_neg(a.x as int * b.x as int, crate::fixed::SCALE as int);
    crate::fixed::lemma_tdiv_neg(a.y as int * b.y as int, crate::fixed::SCALE as int);
    crate::fixed::lemma_tdiv_neg(a.z as int * b.z as int, crate::fixed::SCALE as int);
    assert(a.x as int * (vneg(b).x as int) == -(a.x as int * b.x as int)) by (nonlinear_arith)
        requires
            vneg(b).x as int == -(b.x as int),
    ;
    assert(a.y as int * (vneg(b).y as int) == -(a.y as int * b.y as int)) by (nonlinear_arith)
        requires
            vneg(b).y as int == -(b.y as int),
    ;
    assert(a.z as int * (vneg(b).z as int) == -(a.z as int * b.z as int)) by (nonlinear_arith)
        requires
            vneg(b).z as int == -(b.z as int),
    ;
}

/// A point strictly inside the unit ball, away from the origin.
pub open spec fn in_unit_ball(p: Vector3) -> bool {
    0 < vdot(p, p) <= crate::fixed::SCALE
}

/// How far the squared length of a drawn unit direction may sit from one.
pub const UNIT_TOL: i64 = 256;

/// A direction obtained by normalizing a point of the unit ball, with its
/// squared length within `UNIT_TOL` of one: unit length up to the
/// fixed-point rounding of the normalization.
pub open spec fn is_unit_sample(w: Vector3) -> bool {
    &&& exists|p: Vector3| in_unit_ball(p) && w == vnorm(p)
    &&& vcomp_lim(w)
    &&& crate::fixed::SCALE - UNIT_TOL <= vdot(w, w) <= crate::fixed::SCALE + UNIT_TOL
}

/// Every component a normalization produces is within the saturation bound.
pub proof fn lemma_vnorm_comp_lim(p: Vector3)
    ensures
        vcomp_lim(vnorm(p)),
{
}

/// Negating a vector within the saturation bound leaves its squared length
/// unchanged.
pub proof fn lemma_vdot_neg_both(v: Vector3)
    requires
        vcomp_lim(v),
    ensures
        vdot(vneg(v), vneg(v)) == vdot(v, v),
{
    assert((-(v.x as int)) * (-(v.x as int)) == v.x as int * v.x as int) by (nonlinear_arith);
    assert((-(v.y as int)) * (-(v.y as int)) == v.y as int * v.y as int) by (nonlinear_arith);
    assert((-(v.z as int)) * (-(v.z as int)) == v.z as int * v.z as int) by (nonlinear_arith);
}

/// A random point of the unit ball.
pub fn random_in_unit_sphere(rs: &mut RandomSource) -> (p: Vector3)
    ensures
        in_unit_ball(p),
{
    crate::vector_utils::random_in_unit_sphere(rs)
}

/// A random unit direction.
pub fn random_unit_vector(rs: &mut RandomSource) -> (v: Vector3)
    ensures
        is_unit_sample(v),
{
    crate::vector_utils::random_unit_vector(rs)
}

/// A random unit direction on the hemisphere around `normal`, unit length
/// up to the same tolerance as the underlying unit sample.
pub fn random_unit_on_hemisphere(rs: &mut RandomSource, normal: &Vector3) -> (v: Vector3)
    ensures
        exists|w: Vector3|
            is_unit_sample(w) && v == crate::vector_utils::hemisphere_orient(w, *normal),
        crate::fixed::SCALE - UNIT_TOL <= vdot(v, v) <= crate::fixed::SCALE + UNIT_TOL,
{
    crate::vector_utils::random_in_unit_hemisphere(rs, normal)
}

} // verus!
