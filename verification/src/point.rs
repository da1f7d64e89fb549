//! Points in space, kept apart from free vectors.

use crate::fixed::add_s;
use crate::fixed::sub_s;
use crate::vector::Vector3;
use vstd::prelude::*;

verus! {

#[derive(Clone, Copy, Debug, PartialEq, Eq, Structural)]
pub struct Point3 {
    pub x: i64,
    pub y: i64,
    pub z: i64,
}

/// The point reached from `p` by the displacement `v`.
pub open spec fn p_add(p: Point3, v: Vector3) -> Point3 {
    Point3 {
        x: add_s(p.x as int, v.x as int) as i64,
        y: add_s(p.y as int, v.y as int) as i64,
        z: add_s(p.z as int, v.z as int) as i64,
    }
}

/// The point reached from `p` by the opposite of `v`.
pub open spec fn p_sub(p: Point3, v: Vector3) -> Point3 {
    Point3 {
        x: sub_s(p.x as int, v.x as int) as i64,
        y: sub_s(p.y as int, v.y as int) as i64,
        z: sub_s(p.z as int, v.z as int) as i64,
    }
}

/// The displacement leading from `a` to `b`.
pub open spec fn p_vector_to(a: Point3, b: Point3) -> Vector3 {
    Vector3 {
        x: sub_s(b.x as int, a.x as int) as i64,
        y: sub_s(b.y as int, a.y as int) as i64,
        z: sub_s(b.z as int, a.z as int) as i64,
    }
}

impl Point3 {
    pub fn new(x: i64, y: i64, z: i64) -> (r: Point3)
        ensures
            r == (Point3 { x, y, z }),
    {
        Point3 { x, y, z }
    }

    /// The displacement leading from `self` to `point`.
    pub fn get_vector_to(&self, point: &Point3) -> (r: Vector3)
        ensures
            r == p_vector_to(*self, *point),
    {
        Vector3 {
            x: crate::fixed::fp_sub(point.x, self.x),
            y: crate::fixed::fp_sub(point.y, self.y),
            z: crate::fixed::fp_sub(point.z, self.z),
        }
    }

    pub fn add(self, v: Vector3) -> (r: Point3)
        ensures
            r == p_add(self, v),
    {
        Point3 {
            x: crate::fixed::fp_add(self.x, v.x),
            y: crate::fixed::fp_add(self.y, v.y),
            z: crate::fixed::fp_add(self.z, v.z),
        }
    }

    pub fn sub(self, v: Vector3) -> (r: Point3)
        ensures
            r == p_sub(self, v),
    {
        Point3 {
            x: crate::fixed::fp_sub(self.x, v.x),
            y: crate::fixed::fp_sub(self.y, v.y),
            z: crate::fixed::fp_sub(self.z, v.z),
        }
    }
}

impl Vector3 {
    /// The point reached from `p` by this displacement.
    pub fn add_point(self, p: Point3) -> (r: Point3)
        ensures
            r == p_add(p, self),
    {
        p.add(self)
    }

    /// The point whose coordinates are this displacement less `p`'s.
    pub fn sub_point(self, p: Point3) -> (r: Point3)
        ensures
            r == (Point3 {
                x: sub_s(self.x as int, p.x as int) as i64,
                y: sub_s(self.y as int, p.y as int) as i64,
                z: sub_s(self.z as int, p.z as int) as i64,
            }),
    {
        Point3 {
            x: crate::fixed::fp_sub(self.x, p.x),
            y: crate::fixed::fp_sub(self.y, p.y),
            z: crate::fixed::fp_sub(self.z, p.z),
        }
    }
}

} // verus!
