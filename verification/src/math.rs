//! Integer vectors.

use std::ops::Mul;
use vstd::prelude::*;
use vstd::std_specs::ops::MulSpecImpl;

verus! {

/// A two-dimensional vector of `i32` components.
#[derive(Clone, Copy, PartialEq, Eq, Structural, Debug)]
pub struct IVec2 {
    pub x: i32,
    pub y: i32,
}

impl IVec2 {
    /// All zeroes.
    pub fn zero() -> (r: IVec2)
        ensures
            r.x == 0 && r.y == 0,
    {
        IVec2 { x: 0, y: 0 }
    }

    /// All ones.
    pub fn one() -> (r: IVec2)
        ensures
            r.x == 1 && r.y == 1,
    {
        IVec2 { x: 1, y: 1 }
    }

    /// All negative ones.
    pub fn neg_one() -> (r: IVec2)
        ensures
            r.x == -1 && r.y == -1,
    {
        IVec2 { x: -1, y: -1 }
    }

    /// All `i32::MIN`.
    pub fn min_value() -> (r: IVec2)
        ensures
            r.x == i32::MIN && r.y == i32::MIN,
    {
        IVec2 { x: i32::MIN, y: i32::MIN }
    }

    /// All `i32::MAX`.
    pub fn max_value() -> (r: IVec2)
        ensures
            r.x == i32::MAX && r.y == i32::MAX,
    {
        IVec2 { x: i32::MAX, y: i32::MAX }
    }

    /// A unit vector pointing along the positive X axis.
    pub fn unit_x() -> (r: IVec2)
        ensures
            r.x == 1 && r.y == 0,
    {
        IVec2 { x: 1, y: 0 }
    }

    /// A unit vector pointing along the positive Y axis.
    pub fn unit_y() -> (r: IVec2)
        ensures
            r.x == 0 && r.y == 1,
    {
        IVec2 { x: 0, y: 1 }
    }

    /// A unit vector pointing along the negative X axis.
    pub fn neg_unit_x() -> (r: IVec2)
        ensures
            r.x == -1 && r.y == 0,
    {
        IVec2 { x: -1, y: 0 }
    }

    /// A unit vector pointing along the negative Y axis.
    pub fn neg_unit_y() -> (r: IVec2)
        ensures
            r.x == 0 && r.y == -1,
    {
        IVec2 { x: 0, y: -1 }
    }

    /// The unit axes: the positive X axis, then the positive Y axis.
    pub fn axes() -> (r: [IVec2; 2])
        ensures
            r[0].x == 1 && r[0].y == 0,
            r[1].x == 0 && r[1].y == 1,
    {
        [IVec2::unit_x(), IVec2::unit_y()]
    }

    /// Creates a new vector.
    pub fn new(x: i32, y: i32) -> (r: IVec2)
        ensures
            r.x == x && r.y == y,
    {
        IVec2 { x, y }
    }

    /// Creates a vector with all elements set to `v`.
    pub fn splat(v: i32) -> (r: IVec2)
        ensures
            r.x == v && r.y == v,
    {
        IVec2 { x: v, y: v }
    }

    /// Both components times `rhs` fit in `i32`.
    pub open spec fn scalable_by(self, rhs: i32) -> bool {
        i32::MIN <= self.x * rhs <= i32::MAX && i32::MIN <= self.y * rhs <= i32::MAX
    }

    /// Multiplies both components by `rhs` in place.
    pub fn mul_assign(&mut self, rhs: i32)
        requires
            old(self).scalable_by(rhs),
        ensures
            final(self).x == old(self).x * rhs,
            final(self).y == old(self).y * rhs,
    {
        self.x = self.x * rhs;
        self.y = self.y * rhs;
    }
}

impl Mul<i32> for IVec2 {
    type Output = IVec2;

    fn mul(self, rhs: i32) -> (r: IVec2) {
        IVec2 { x: self.x * rhs, y: self.y * rhs }
    }
}

impl MulSpecImpl<i32> for IVec2 {
    open spec fn obeys_mul_spec() -> bool {
        true
    }

    open spec fn mul_req(self, rhs: i32) -> bool {
        self.scalable_by(rhs)
    }

    open spec fn mul_spec(self, rhs: i32) -> IVec2 {
        IVec2 { x: (self.x * rhs) as i32, y: (self.y * rhs) as i32 }
    }
}

impl Mul<IVec2> for i32 {
    type Output = IVec2;

    fn mul(self, rhs: IVec2) -> (r: IVec2) {
        IVec2 { x: self * rhs.x, y: self * rhs.y }
    }
}

impl MulSpecImpl<IVec2> for i32 {
    open spec fn obeys_mul_spec() -> bool {
        true
    }

    open spec fn mul_req(self, rhs: IVec2) -> bool {
        i32::MIN <= self * rhs.x <= i32::MAX && i32::MIN <= self * rhs.y <= i32::MAX
    }

    open spec fn mul_spec(self, rhs: IVec2) -> IVec2 {
        IVec2 { x: (self * rhs.x) as i32, y: (self * rhs.y) as i32 }
    }
}

} // verus!
