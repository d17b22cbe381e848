//! Points and displacements of the plane in fixed-point world units.
use vstd::prelude::*;

verus! {

/// Fixed-point units in one world unit.
pub const UNITS_PER_WORLD: i64 = 1_000_000;

/// A point or a displacement, in fixed-point units.
#[derive(Clone, Copy, Debug, PartialEq, Eq, Structural)]
pub struct Vector {
    pub x: i64,
    pub y: i64,
}

/// The square of the Euclidean distance between two points.
pub open spec fn dist_sq(a: Vector, b: Vector) -> int {
    (b.x - a.x) * (b.x - a.x) + (b.y - a.y) * (b.y - a.y)
}

/// `a + d` fits in the coordinate type.
pub open spec fn can_translate(a: Vector, d: Vector) -> bool {
    i64::MIN <= a.x + d.x <= i64::MAX && i64::MIN <= a.y + d.y <= i64::MAX
}

impl Vector {
    pub fn new(x: i64, y: i64) -> (r: Vector)
        ensures
            r.x == x,
            r.y == y,
    {
        Vector { x, y }
    }

    pub fn zero() -> (r: Vector)
        ensures
            r.x == 0,
            r.y == 0,
    {
        Vector { x: 0, y: 0 }
    }

    /// The point `self` moved by the displacement `d`.
    pub fn translate(self, d: Vector) -> (r: Vector)
        requires
            can_translate(self, d),
        ensures
            r.x == self.x + d.x,
            r.y == self.y + d.y,
    {
        Vector { x: self.x + d.x, y: self.y + d.y }
    }

    /// Whether `other` lies strictly closer than `radius` to `self`, decided
    /// on squared distances so that no root is taken.
    pub fn is_within(self, other: Vector, radius: i64) -> (r: bool)
        requires
            radius >= 0,
        ensures
            r == (dist_sq(self, other) < radius * radius),
    {
        let dx = other.x as i128 - self.x as i128;
        let dy = other.y as i128 - self.y as i128;
        let rad = radius as i128;
        if dx >= rad || dx <= -rad || dy >= rad || dy <= -rad {
            proof {
                let (ddx, ddy, rr) = (dx as int, dy as int, rad as int);
                assert(ddx * ddx + ddy * ddy >= rr * rr) by (nonlinear_arith)
                    requires
                        rr >= 0,
                        ddx >= rr || ddx <= -rr || ddy >= rr || ddy <= -rr,
                ;
            }
            false
        } else {
            proof {
                let (ddx, ddy, rr) = (dx as int, dy as int, rad as int);
                assert(0 <= ddx * ddx < rr * rr && 0 <= ddy * ddy < rr * rr
                    && rr * rr <= 0x4000_0000_0000_0000_0000_0000_0000_0000)
                    by (nonlinear_arith)
                    requires
                        -rr < ddx < rr,
                        -rr < ddy < rr,
                        rr <= 0x8000_0000_0000_0000,
                ;
            }
            dx * dx + dy * dy < rad * rad
        }
    }
}

} // verus!
