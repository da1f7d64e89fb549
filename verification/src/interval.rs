//! Valid parameter ranges for the intersection search.

use crate::fixed::sub_s;
use vstd::prelude::*;

verus! {

#[derive(Clone, Copy, Debug, PartialEq, Eq, Structural)]
pub struct Interval {
    pub min: i64,
    pub max: i64,
}

impl Interval {
    pub fn new(min: i64, max: i64) -> (r: Interval)
        ensures
            r == (Interval { min, max }),
    {
        Interval { min, max }
    }

    pub fn size(&self) -> (r: i64)
        ensures
            r == sub_s(self.max as int, self.min as int),
    {
        crate::fixed::fp_sub(self.max, self.min)
    }

    pub fn contains(&self, x: i64) -> (r: bool)
        ensures
            r == (self.min <= x <= self.max),
    {
        x >= self.min && x <= self.max
    }

    pub fn surrounds(&self, x: i64) -> (r: bool)
        ensures
            r == (self.min < x < self.max),
    {
        x > self.min && x < self.max
    }
}

} // verus!
