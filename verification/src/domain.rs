use vstd::prelude::*;

use crate::math::abs;
use crate::rat::Rat;
use crate::vec3::{Vec3, V3};

verus! {

/// Magnitude cap on ray origins and directions.  Slightly wider than
/// `math::COORD_LIMIT` so that hit points truncated out of a triangle's
/// bounds, and marching points nudged by one unit, are still admissible
/// ray origins.
pub const RAY_LIMIT: i64 = 602_000;

#[derive(Clone, Copy, PartialEq, Eq, Structural, Debug)]
pub enum Axis {
    X,
    Y,
    Z,
    Nil,
}

/// Component of a mathematical vector along an axis.
pub open spec fn axis_of(v: V3, a: Axis) -> int {
    match a {
        Axis::X => v.x,
        Axis::Y => v.y,
        Axis::Z => v.z,
        Axis::Nil => 0,
    }
}

/// A ray with fixed-point origin and direction.  Points along the ray are
/// `origin + s * direction` for the exact rational parameter `s >= 0`;
/// the renderers hand in directions of length close to `math::SCALE`, so
/// the parameter of a hit numerically equals the world-unit distance.
#[derive(Clone, Copy, Debug)]
pub struct Ray {
    pub origin: Vec3,
    pub direction: Vec3,
}

impl Ray {
    pub open spec fn wf(self) -> bool {
        self.origin.bounded(RAY_LIMIT as int) && self.direction.bounded(RAY_LIMIT as int)
    }

    pub fn new(origin: &Vec3, direction: &Vec3) -> (r: Ray)
        ensures
            r.origin == *origin,
            r.direction == *direction,
    {
        Ray { origin: *origin, direction: *direction }
    }

    /// The point at exact parameter `t.num / t.den`, truncated to the
    /// fixed-point grid componentwise.
    /// The exact coordinates of the point must fit the fixed-point grid:
    /// each scaled numerator is capped by the denominator times the grid
    /// cap (callers know this from the geometry that produced `t`).
    pub fn eval(&self, t: &Rat) -> (p: Vec3)
        requires
            self.origin.bounded(250_000_000),
            self.direction.bounded(250_000_000),
            t.wf(),
            abs(self.origin@.x * t.den + t.num * self.direction@.x) <= 0x4000_0000_0000_0000i64
                * t.den,
            abs(self.origin@.y * t.den + t.num * self.direction@.y) <= 0x4000_0000_0000_0000i64
                * t.den,
            abs(self.origin@.z * t.den + t.num * self.direction@.z) <= 0x4000_0000_0000_0000i64
                * t.den,
        ensures
            p@.x == crate::math::tdiv(self.origin@.x * t.den + t.num * self.direction@.x,
                t.den as int),
            p@.y == crate::math::tdiv(self.origin@.y * t.den + t.num * self.direction@.y,
                t.den as int),
            p@.z == crate::math::tdiv(self.origin@.z * t.den + t.num * self.direction@.z,
                t.den as int),
    {
        let x = Self::eval_axis(self.origin.x, self.direction.x, t);
        let y = Self::eval_axis(self.origin.y, self.direction.y, t);
        let z = Self::eval_axis(self.origin.z, self.direction.z, t);
        Vec3 { x, y, z }
    }

    fn eval_axis(o: i64, d: i64, t: &Rat) -> (r: i64)
        requires
            abs(o as int) <= 250_000_000,
            abs(d as int) <= 250_000_000,
            t.wf(),
            abs(o * t.den + t.num * d) <= 0x4000_0000_0000_0000i64 * t.den,
        ensures
            r == crate::math::tdiv(o * t.den + t.num * d, t.den as int),
            abs(r as int) <= 0x4000_0000_0000_0000i64 as int,
    {
        proof {
            lemma_eval_axis_fits(o as int, d as int, t.num as int, t.den as int);
        }
        let num: i128 = (o as i128) * t.den + t.num * (d as i128);
        let q = crate::math::Math::div_trunc(num, t.den);
        proof {
            crate::math::lemma_tdiv_bound(o * t.den + t.num * d, t.den as int,
                0x4000_0000_0000_0000i64 as int);
        }
        q as i64
    }

}

proof fn lemma_eval_axis_fits(o: int, d: int, tn: int, td: int) by (nonlinear_arith)
    requires
        abs(o) <= 250_000_000,
        abs(d) <= 250_000_000,
        1 <= td <= crate::rat::RAT_DEN_MAX as int,
        abs(tn) <= crate::rat::RAT_NUM_MAX as int,
    ensures
        abs(o * td) <= 2_000_000_000_000_000_000_000_000_000i128 as int,
        abs(tn * d) <= 3_000_000_000_000_000_000_000_000_000i128 as int,
{
}

/// Record of a ray/primitive intersection.  On a miss every field reads
/// as its sentinel: the distance is `None` (infinitely far) and the
/// handles are empty.
#[derive(Clone, Copy, Debug)]
pub struct Intersection {
    pub hit: bool,
    /// World-space hit point, truncated to the fixed-point grid.
    pub coords: Vec3,
    /// Unnormalised face normal of the primitive that was hit.
    pub normal: Vec3,
    /// Emitted radiance at the hit point.
    pub emit: Vec3,
    /// Exact ray parameter of the hit; `None` on a miss.
    pub distance: Option<Rat>,
    /// Arena index of the primitive that was hit.
    pub obj: Option<usize>,
    /// Arena index of the material at the hit point.
    pub material: Option<usize>,
}

impl Intersection {
    pub open spec fn wf(self) -> bool {
        self.hit <==> self.distance is Some
    }

    pub fn new() -> (r: Intersection)
        ensures
            !r.hit,
            r.distance is None,
            r.obj is None,
            r.material is None,
            r.coords@ == (V3 { x: 0int, y: 0int, z: 0int }),
            r.normal@ == (V3 { x: 0int, y: 0int, z: 0int }),
            r.emit@ == (V3 { x: 0int, y: 0int, z: 0int }),
            r.wf(),
    {
        Intersection {
            hit: false,
            coords: Vec3 { x: 0, y: 0, z: 0 },
            normal: Vec3 { x: 0, y: 0, z: 0 },
            emit: Vec3 { x: 0, y: 0, z: 0 },
            distance: None,
            obj: None,
            material: None,
        }
    }
}

} // verus!
