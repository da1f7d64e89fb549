//! Colours clamped to the unit range, and their 8-bit conversion.

use crate::fixed::add_s;
use crate::fixed::mul_s;
use crate::fixed::to_int_s;
use crate::fixed::SCALE;
use crate::vector::Vector3;
use vstd::prelude::*;

verus! {

/// The fixed-point value of 255.99, the byte-conversion factor.
pub const BYTE_FACTOR: i64 = 16776560;

/// Saturate a scalar into the unit colour range.
pub open spec fn clamp01_s(x: int) -> int {
    if x < 0 {
        0
    } else if x > SCALE {
        SCALE as int
    } else {
        x
    }
}

/// An RGB colour, each channel a fixed-point scalar in the unit range.
#[derive(Clone, Copy, Debug, Default, PartialEq, Eq, Structural)]
pub struct ColorRGB {
    pub r: i64,
    pub g: i64,
    pub b: i64,
}

/// Saturate a scalar into the unit colour range.
pub fn clamp01(x: i64) -> (r: i64)
    ensures
        r == clamp01_s(x as int),
{
    if x < 0 {
        0
    } else if x > SCALE {
        SCALE
    } else {
        x
    }
}

impl ColorRGB {
    pub fn new(r: i64, g: i64, b: i64) -> (c: ColorRGB)
        ensures
            c.r == clamp01_s(r as int),
            c.g == clamp01_s(g as int),
            c.b == clamp01_s(b as int),
    {
        ColorRGB { r: clamp01(r), g: clamp01(g), b: clamp01(b) }
    }

    pub fn add(self, other: ColorRGB) -> (c: ColorRGB)
        ensures
            c.r == clamp01_s(add_s(self.r as int, other.r as int)),
            c.g == clamp01_s(add_s(self.g as int, other.g as int)),
            c.b == clamp01_s(add_s(self.b as int, other.b as int)),
    {
        ColorRGB {
            r: clamp01(crate::fixed::fp_add(self.r, other.r)),
            g: clamp01(crate::fixed::fp_add(self.g, other.g)),
            b: clamp01(crate::fixed::fp_add(self.b, other.b)),
        }
    }

    /// Add a vector's components channel-wise, clamped to the unit range.
    pub fn add_vector(self, v: Vector3) -> (c: ColorRGB)
        ensures
            c.r == clamp01_s(add_s(v.x as int, self.r as int)),
            c.g == clamp01_s(add_s(v.y as int, self.g as int)),
            c.b == clamp01_s(add_s(v.z as int, self.b as int)),
    {
        ColorRGB {
            r: clamp01(crate::fixed::fp_add(v.x, self.r)),
            g: clamp01(crate::fixed::fp_add(v.y, self.g)),
            b: clamp01(crate::fixed::fp_add(v.z, self.b)),
        }
    }

    /// Scale every channel by a fixed-point factor, clamped to the unit range.
    pub fn mul(self, factor: i64) -> (c: ColorRGB)
        ensures
            c.r == clamp01_s(mul_s(self.r as int, factor as int)),
            c.g == clamp01_s(mul_s(self.g as int, factor as int)),
            c.b == clamp01_s(mul_s(self.b as int, factor as int)),
    {
        ColorRGB {
            r: clamp01(crate::fixed::fp_mul(self.r, factor)),
            g: clamp01(crate::fixed::fp_mul(self.g, factor)),
            b: clamp01(crate::fixed::fp_mul(self.b, factor)),
        }
    }
}

/// The byte value of one unit-range channel.
pub open spec fn channel_byte_s(c: int) -> int {
    to_int_s(mul_s(clamp01_s(c), BYTE_FACTOR as int))
}

proof fn lemma_channel_byte_in_range(c: int)
    ensures
        0 <= channel_byte_s(c) <= 255,
{
    let u = clamp01_s(c);
    assert(0 <= u <= SCALE);
    assert(0 <= u * BYTE_FACTOR <= SCALE as int * BYTE_FACTOR) by (nonlinear_arith)
        requires
            0 <= u <= SCALE,
    ;
    crate::fixed::lemma_tdiv_monotone(0, u * BYTE_FACTOR, SCALE as int);
    crate::fixed::lemma_tdiv_monotone(u * BYTE_FACTOR, SCALE as int * BYTE_FACTOR, SCALE as int);
    crate::fixed::lemma_tdiv_exact(BYTE_FACTOR as int, SCALE as int);
    assert(BYTE_FACTOR as int * SCALE as int == SCALE as int * BYTE_FACTOR)
        by (nonlinear_arith);
    assert(crate::fixed::tdiv(0, SCALE as int) == 0);
    let m = mul_s(u, BYTE_FACTOR as int);
    assert(0 <= m <= BYTE_FACTOR);
    crate::fixed::lemma_tdiv_monotone(0, m, SCALE as int);
    crate::fixed::lemma_tdiv_monotone(m, BYTE_FACTOR as int, SCALE as int);
    assert(crate::fixed::tdiv(BYTE_FACTOR as int, SCALE as int) == 255);
}

/// The three bytes of a colour, each channel scaled to the 8-bit range.
pub fn color_bytes(color: ColorRGB) -> (bytes: (u8, u8, u8))
    ensures
        bytes.0 == channel_byte_s(color.r as int),
        bytes.1 == channel_byte_s(color.g as int),
        bytes.2 == channel_byte_s(color.b as int),
{
    proof {
        lemma_channel_byte_in_range(color.r as int);
        lemma_channel_byte_in_range(color.g as int);
        lemma_channel_byte_in_range(color.b as int);
    }
    let r = crate::fixed::fp_to_int(crate::fixed::fp_mul(clamp01(color.r), BYTE_FACTOR));
    let g = crate::fixed::fp_to_int(crate::fixed::fp_mul(clamp01(color.g), BYTE_FACTOR));
    let b = crate::fixed::fp_to_int(crate::fixed::fp_mul(clamp01(color.b), BYTE_FACTOR));
    (r as u8, g as u8, b as u8)
}

} // verus!
