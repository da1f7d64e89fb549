//! Rejection samplers and small vector helpers.
//!
//! The samplers draw candidate points from a cube (or square) and keep the
//! first one that lies inside the unit ball, as the classic diffuse-scatter
//! construction asks. Attempts are bounded so that every sampler provably
//! terminates; after the bound a fixed unit point is used, an event whose
//! probability is vanishingly small.

use crate::fixed::SCALE;
use crate::rng::RandomSource;
use crate::vector::in_unit_ball;
use crate::vector::is_unit_sample;
use crate::vector::vdot;
use crate::vector::vneg;
use crate::vector::vnorm;
use crate::vector::Vector3;
use vstd::prelude::*;

verus! {

/// How many candidate points a sampler may reject before falling back.
pub const SAMPLE_ATTEMPTS: u32 = 64;

/// A random unit direction: a ball point normalized, accepted only when
/// its squared length lands within `UNIT_TOL` of one, so the contract's
/// length bound is enforced where it is stated. A candidate of
/// sub-resolution magnitude, whose normalization would be far from unit
/// length, is redrawn.
pub fn random_unit_vector(rs: &mut RandomSource) -> (v: Vector3)
    ensures
        is_unit_sample(v),
{
    let mut attempts: u32 = 0;
    while attempts < SAMPLE_ATTEMPTS
        invariant
            true,
        decreases SAMPLE_ATTEMPTS - attempts,
    {
        let p = random_in_unit_sphere(rs);
        let v = p.normalize();
        let q = v.length_squared();
        if SCALE - crate::vector::UNIT_TOL <= q && q <= SCALE + crate::vector::UNIT_TOL {
            proof {
                crate::vector::lemma_vnorm_comp_lim(p);
                assert(in_unit_ball(p) && v == vnorm(p));
            }
            return v;
        }
        attempts = attempts + 1;
    }
    fallback_unit_vector()
}

/// The direction used when every candidate was rejected: the exact unit
/// vector along the x axis, which is its own normalization.
fn fallback_unit_vector() -> (v: Vector3)
    ensures
        is_unit_sample(v),
{
    let v = Vector3 { x: SCALE, y: 0, z: 0 };
    proof {
        crate::fixed::lemma_tdiv_exact(SCALE as int, SCALE as int);
        crate::fixed::lemma_tdiv_zero(SCALE as int);
        assert(vdot(v, v) == SCALE);
        assert(in_unit_ball(v));
        assert(1 * 1 * (SCALE as int) == SCALE as int) by (nonlinear_arith);
        crate::fixed::lemma_sqrt_s_square_units(1);
        assert(crate::vector::vlen(v) == SCALE);
        assert(vnorm(v) == v);
    }
    v
}

/// A random point of the unit ball, drawn by rejection from the enclosing cube.
pub fn random_in_unit_sphere(rs: &mut RandomSource) -> (p: Vector3)
    ensures
        in_unit_ball(p),
{
    let mut attempts: u32 = 0;
    while attempts < SAMPLE_ATTEMPTS
        invariant
            true,
        decreases SAMPLE_ATTEMPTS - attempts,
    {
        let c = Vector3 {
            x: rs.next_in(-SCALE, SCALE),
            y: rs.next_in(-SCALE, SCALE),
            z: rs.next_in(-SCALE, SCALE),
        };
        let q = c.length_squared();
        if 0 < q && q <= SCALE {
            return c;
        }
        attempts = attempts + 1;
    }
    fallback_unit_point()
}

/// A random point of the unit disk in the x-y plane.
pub fn random_in_unit_disk(rs: &mut RandomSource) -> (p: Vector3)
    ensures
        in_unit_ball(p),
        p.z == 0,
{
    let mut attempts: u32 = 0;
    while attempts < SAMPLE_ATTEMPTS
        invariant
            true,
        decreases SAMPLE_ATTEMPTS - attempts,
    {
        let c = Vector3 { x: rs.next_in(-SCALE, SCALE), y: rs.next_in(-SCALE, SCALE), z: 0 };
        let q = c.length_squared();
        if 0 < q && q <= SCALE {
            return c;
        }
        attempts = attempts + 1;
    }
    fallback_unit_point()
}

/// The orientation step of hemisphere sampling: keep `w` when it leaves the
/// surface, else its opposite.
pub open spec fn hemisphere_orient(w: Vector3, normal: Vector3) -> Vector3 {
    if vdot(w, normal) > 0 {
        w
    } else {
        vneg(w)
    }
}

/// A random unit direction on the hemisphere around `normal`, unit length
/// up to the same tolerance as the underlying unit sample.
pub fn random_in_unit_hemisphere(rs: &mut RandomSource, normal: &Vector3) -> (v: Vector3)
    ensures
        exists|w: Vector3| is_unit_sample(w) && v == hemisphere_orient(w, *normal),
        SCALE - crate::vector::UNIT_TOL <= vdot(v, v) <= SCALE + crate::vector::UNIT_TOL,
{
    let w = random_unit_vector(rs);
    let v = if w.dot(*normal) > 0 {
        w
    } else {
        proof {
            crate::vector::lemma_vdot_neg_both(w);
        }
        w.neg()
    };
    proof {
        assert(is_unit_sample(w) && v == hemisphere_orient(w, *normal));
    }
    v
}

/// Whether every component is below one representable step in magnitude;
/// the degenerate-direction test, by absolute value on each axis.
pub open spec fn near_zero_s(v: Vector3) -> bool {
    v.x == 0 && v.y == 0 && v.z == 0
}

/// Check for a degenerate, effectively zero vector.
pub fn near_zero(v: Vector3) -> (r: bool)
    ensures
        r == near_zero_s(v),
{
    v.x == 0 && v.y == 0 && v.z == 0
}

/// The point on the unit sphere used when every candidate was rejected.
fn fallback_unit_point() -> (p: Vector3)
    ensures
        in_unit_ball(p),
        p.y == 0 && p.z == 0,
{
    let p = Vector3 { x: SCALE, y: 0, z: 0 };
    proof {
        crate::fixed::lemma_tdiv_exact(SCALE as int, SCALE as int);
        assert(crate::fixed::tdiv(0, SCALE as int) == 0);
        assert(vdot(p, p) == SCALE);
    }
    p
}

} // verus!
