use vstd::prelude::*;

use crate::domain::{axis_of, Axis, Ray};
use crate::math::{abs, tdiv, COORD_LIMIT, COORD_LIMIT_NEG};
use crate::rat::frac_le;
use crate::vec3::{Vec3, V3};

verus! {

/// Axis-aligned bounding box, `p_min <= p_max` componentwise when it is
/// not empty.  The default box is empty (`p_min > p_max`) and is the
/// identity of `union`: it absorbs any point or box without bias.
#[derive(Clone, Copy, PartialEq, Eq, Structural, Debug)]
pub struct Bounds3 {
    pub p_min: Vec3,
    pub p_max: Vec3,
}

/// Componentwise union of two boxes, as a mathematical function.
pub open spec fn union_spec(a: Bounds3, b: Bounds3) -> Bounds3 {
    Bounds3 {
        p_min: Vec3 {
            x: if a.p_min.x <= b.p_min.x { a.p_min.x } else { b.p_min.x },
            y: if a.p_min.y <= b.p_min.y { a.p_min.y } else { b.p_min.y },
            z: if a.p_min.z <= b.p_min.z { a.p_min.z } else { b.p_min.z },
        },
        p_max: Vec3 {
            x: if a.p_max.x >= b.p_max.x { a.p_max.x } else { b.p_max.x },
            y: if a.p_max.y >= b.p_max.y { a.p_max.y } else { b.p_max.y },
            z: if a.p_max.z >= b.p_max.z { a.p_max.z } else { b.p_max.z },
        },
    }
}

impl Bounds3 {
    /// All corners within the world's coordinate cap.
    pub open spec fn wf(self) -> bool {
        self.p_min.bounded(COORD_LIMIT as int) && self.p_max.bounded(COORD_LIMIT as int)
    }

    pub open spec fn contains_point(self, p: V3) -> bool {
        self.p_min@.x <= p.x <= self.p_max@.x && self.p_min@.y <= p.y <= self.p_max@.y
            && self.p_min@.z <= p.z <= self.p_max@.z
    }

    /// Box `o` lies within `self` (componentwise interval inclusion).
    pub open spec fn contains_box(self, o: Bounds3) -> bool {
        self.p_min.x <= o.p_min.x && self.p_min.y <= o.p_min.y && self.p_min.z <= o.p_min.z
            && o.p_max.x <= self.p_max.x && o.p_max.y <= self.p_max.y && o.p_max.z <= self.p_max.z
    }

    /// The empty box: the identity of `union`.
    pub fn zero() -> (r: Bounds3)
        ensures
            r == Self::empty_spec(),
            r.wf(),
    {
        Bounds3 {
            p_min: Vec3 { x: COORD_LIMIT, y: COORD_LIMIT, z: COORD_LIMIT },
            p_max: Vec3 { x: COORD_LIMIT_NEG, y: COORD_LIMIT_NEG, z: COORD_LIMIT_NEG },
        }
    }

    pub open spec fn empty_spec() -> Bounds3 {
        Bounds3 {
            p_min: Vec3 { x: COORD_LIMIT, y: COORD_LIMIT, z: COORD_LIMIT },
            p_max: Vec3 { x: COORD_LIMIT_NEG, y: COORD_LIMIT_NEG, z: COORD_LIMIT_NEG },
        }
    }

    /// The smallest box holding two points.
    pub fn from_points(p1: &Vec3, p2: &Vec3) -> (r: Bounds3)
        ensures
            r.p_min == Vec3::min_spec(*p1, *p2),
            r.p_max == Vec3::max_spec(*p1, *p2),
            r.contains_point(p1@),
            r.contains_point(p2@),
    {
        Bounds3 { p_min: Vec3::min(p1, p2), p_max: Vec3::max(p1, p2) }
    }

    /// Grow `self` to also cover `b`.
    pub fn union(&mut self, b: &Bounds3)
        ensures
            *final(self) == union_spec(*old(self), *b),
    {
        self.p_min = Vec3::min(&self.p_min, &b.p_min);
        self.p_max = Vec3::max(&self.p_max, &b.p_max);
    }

    /// Grow `self` to also cover the point `p`.
    pub fn union_point(&mut self, p: &Vec3)
        ensures
            *final(self) == union_spec(*old(self), Bounds3 { p_min: *p, p_max: *p }),
    {
        self.p_min = Vec3::min(&self.p_min, p);
        self.p_max = Vec3::max(&self.p_max, p);
    }

    /// The union of two boxes as a fresh value.
    pub fn union2(a: &Bounds3, b: &Bounds3) -> (r: Bounds3)
        ensures
            r == union_spec(*a, *b),
    {
        Bounds3 { p_min: Vec3::min(&a.p_min, &b.p_min), p_max: Vec3::max(&a.p_max, &b.p_max) }
    }

    /// Centre of the box, truncated to the fixed-point grid.
    pub fn center(&self) -> (r: Vec3)
        requires
            self.wf(),
        ensures
            r@.x == tdiv(self.p_min@.x + self.p_max@.x, 2),
            r@.y == tdiv(self.p_min@.y + self.p_max@.y, 2),
            r@.z == tdiv(self.p_min@.z + self.p_max@.z, 2),
    {
        let x = crate::math::Math::div_trunc(
            (self.p_min.x as i128) + (self.p_max.x as i128), 2);
        let y = crate::math::Math::div_trunc(
            (self.p_min.y as i128) + (self.p_max.y as i128), 2);
        let z = crate::math::Math::div_trunc(
            (self.p_min.z as i128) + (self.p_max.z as i128), 2);
        proof {
            crate::vec3::lemma_tdiv_shrinks(self.p_min@.x + self.p_max@.x, 2);
            crate::vec3::lemma_tdiv_shrinks(self.p_min@.y + self.p_max@.y, 2);
            crate::vec3::lemma_tdiv_shrinks(self.p_min@.z + self.p_max@.z, 2);
        }
        Vec3 { x: x as i64, y: y as i64, z: z as i64 }
    }

    /// Extent of the box along each axis.
    pub fn diagonal(&self) -> (r: Vec3)
        requires
            self.wf(),
        ensures
            r@ == self.p_max@.sub(self.p_min@),
    {
        self.p_max.sub(&self.p_min)
    }

    /// The axis along which the box is widest; ties resolve to X over Y
    /// over Z.
    pub fn max_extent_axis(&self) -> (r: Axis)
        requires
            self.wf(),
        ensures
            r == self.max_extent_axis_spec(),
    {
        let d = self.diagonal();
        if d.x >= d.y && d.x >= d.z {
            Axis::X
        } else if d.y >= d.z {
            Axis::Y
        } else {
            Axis::Z
        }
    }

    pub open spec fn max_extent_axis_spec(self) -> Axis {
        let d = self.p_max@.sub(self.p_min@);
        if d.x >= d.y && d.x >= d.z {
            Axis::X
        } else if d.y >= d.z {
            Axis::Y
        } else {
            Axis::Z
        }
    }
}

/// Union covers both operands: every point of either box is in the union,
/// and `union` with a point covers that point.
pub proof fn lemma_union_contains(a: Bounds3, b: Bounds3, p: V3)
    ensures
        a.contains_point(p) ==> union_spec(a, b).contains_point(p),
        b.contains_point(p) ==> union_spec(a, b).contains_point(p),
        union_spec(a, b).contains_box(a) || !a.nonempty(),
        union_spec(a, b).contains_box(b) || !b.nonempty(),
{
}

impl Bounds3 {
    pub open spec fn nonempty(self) -> bool {
        self.p_min.x <= self.p_max.x && self.p_min.y <= self.p_max.y && self.p_min.z
            <= self.p_max.z
    }
}

/// The union of boxes is commutative and associative, and unioning a box
/// with itself gives the box back.
pub proof fn lemma_union_algebra(a: Bounds3, b: Bounds3, c: Bounds3)
    ensures
        union_spec(a, b) == union_spec(b, a),
        union_spec(union_spec(a, b), c) == union_spec(a, union_spec(b, c)),
        union_spec(a, a) == a,
{
}

/// Box containment is transitive, pointwise and boxwise.
pub proof fn lemma_contains_trans(a: Bounds3, b: Bounds3, p: V3)
    ensures
        a.contains_box(b) && b.contains_point(p) ==> a.contains_point(p),
{
}

// --- exact slab test -------------------------------------------------

/// Entry numerator of the slab interval along one axis (direction
/// component nonzero); the denominator is `|direction|` along the axis.
pub open spec fn en_num(b: Bounds3, r: Ray, a: Axis) -> int {
    if axis_of(r.direction@, a) > 0 {
        axis_of(b.p_min@, a) - axis_of(r.origin@, a)
    } else {
        axis_of(r.origin@, a) - axis_of(b.p_max@, a)
    }
}

/// Exit numerator of the slab interval along one axis.
pub open spec fn ex_num(b: Bounds3, r: Ray, a: Axis) -> int {
    if axis_of(r.direction@, a) > 0 {
        axis_of(b.p_max@, a) - axis_of(r.origin@, a)
    } else {
        axis_of(r.origin@, a) - axis_of(b.p_min@, a)
    }
}

pub open spec fn slab_den(r: Ray, a: Axis) -> int {
    abs(axis_of(r.direction@, a))
}

/// A ray parallel to an axis passes that slab iff its origin lies inside.
pub open spec fn par_ok(b: Bounds3, r: Ray, a: Axis) -> bool {
    axis_of(r.direction@, a) == 0 ==> axis_of(b.p_min@, a) <= axis_of(r.origin@, a) <= axis_of(
        b.p_max@, a)
}

/// Along non-parallel axes, every entry parameter is at most every exit
/// parameter.
pub open spec fn pair_ok(b: Bounds3, r: Ray, a1: Axis, a2: Axis) -> bool {
    axis_of(r.direction@, a1) != 0 && axis_of(r.direction@, a2) != 0 ==> frac_le(
        en_num(b, r, a1), slab_den(r, a1), ex_num(b, r, a2), slab_den(r, a2))
}

/// Every exit parameter is at least zero (the box is not entirely behind
/// the origin).
pub open spec fn exit_ok(b: Bounds3, r: Ray, a: Axis) -> bool {
    axis_of(r.direction@, a) != 0 ==> ex_num(b, r, a) >= 0
}

/// The exact slab test: the latest entry is no later than the earliest
/// exit, the earliest exit is not behind the origin, and slabs the ray is
/// parallel to contain the origin.  A ray parallel to an axis is handled
/// by the explicit convention above — exactly, with no epsilon and no
/// undefined values.
pub open spec fn slab_hit(b: Bounds3, r: Ray) -> bool {
    par_ok(b, r, Axis::X) && par_ok(b, r, Axis::Y) && par_ok(b, r, Axis::Z) && pair_ok(b, r,
        Axis::X, Axis::X) && pair_ok(b, r, Axis::X, Axis::Y) && pair_ok(b, r, Axis::X, Axis::Z)
        && pair_ok(b, r, Axis::Y, Axis::X) && pair_ok(b, r, Axis::Y, Axis::Y) && pair_ok(b, r,
        Axis::Y, Axis::Z) && pair_ok(b, r, Axis::Z, Axis::X) && pair_ok(b, r, Axis::Z, Axis::Y)
        && pair_ok(b, r, Axis::Z, Axis::Z) && exit_ok(b, r, Axis::X) && exit_ok(b, r, Axis::Y)
        && exit_ok(b, r, Axis::Z)
}

impl Bounds3 {
    /// Exact ray/box slab test.
    pub fn intersect(&self, ray: &Ray) -> (hit: bool)
        requires
            self.wf(),
            ray.wf(),
        ensures
            hit == slab_hit(*self, *ray),
    {
        let par = Self::axis_par(self.p_min.x, self.p_max.x, ray.origin.x, ray.direction.x)
            && Self::axis_par(self.p_min.y, self.p_max.y, ray.origin.y, ray.direction.y)
            && Self::axis_par(self.p_min.z, self.p_max.z, ray.origin.z, ray.direction.z);
        if !par {
            return false;
        }
        let exit = Self::axis_exit(self.p_min.x, self.p_max.x, ray.origin.x, ray.direction.x)
            && Self::axis_exit(self.p_min.y, self.p_max.y, ray.origin.y, ray.direction.y)
            && Self::axis_exit(self.p_min.z, self.p_max.z, ray.origin.z, ray.direction.z);
        if !exit {
            return false;
        }
        let px = (self.p_min.x, self.p_max.x, ray.origin.x, ray.direction.x);
        let py = (self.p_min.y, self.p_max.y, ray.origin.y, ray.direction.y);
        let pz = (self.p_min.z, self.p_max.z, ray.origin.z, ray.direction.z);
        Self::axis_pair(px, px) && Self::axis_pair(px, py) && Self::axis_pair(px, pz)
            && Self::axis_pair(py, px) && Self::axis_pair(py, py) && Self::axis_pair(py, pz)
            && Self::axis_pair(pz, px) && Self::axis_pair(pz, py) && Self::axis_pair(pz, pz)
    }

    fn axis_par(mn: i64, mx: i64, o: i64, d: i64) -> (r: bool)
        ensures
            r == (d == 0 ==> mn <= o <= mx),
    {
        d != 0 || (mn <= o && o <= mx)
    }

    fn axis_exit(mn: i64, mx: i64, o: i64, d: i64) -> (r: bool)
        requires
            abs(mn as int) <= COORD_LIMIT as int,
            abs(mx as int) <= COORD_LIMIT as int,
            abs(o as int) <= crate::domain::RAY_LIMIT as int,
        ensures
            r == (d != 0 ==> (if d > 0 { mx - o } else { o as int - mn }) >= 0),
    {
        if d == 0 {
            true
        } else if d > 0 {
            mx - o >= 0
        } else {
            o - mn >= 0
        }
    }

    /// `a1 = (mn, mx, o, d)` entry against `a2` exit, as exact fractions.
    fn axis_pair(a1: (i64, i64, i64, i64), a2: (i64, i64, i64, i64)) -> (r: bool)
        requires
            abs(a1.0 as int) <= COORD_LIMIT as int,
            abs(a1.1 as int) <= COORD_LIMIT as int,
            abs(a1.2 as int) <= crate::domain::RAY_LIMIT as int,
            abs(a2.0 as int) <= COORD_LIMIT as int,
            abs(a2.1 as int) <= COORD_LIMIT as int,
            abs(a2.2 as int) <= crate::domain::RAY_LIMIT as int,
            abs(a1.3 as int) <= crate::domain::RAY_LIMIT as int,
            abs(a2.3 as int) <= crate::domain::RAY_LIMIT as int,
        ensures
            r == (a1.3 != 0 && a2.3 != 0 ==> frac_le(
                if a1.3 > 0 { a1.0 - a1.2 } else { a1.2 - a1.1 },
                abs(a1.3 as int),
                if a2.3 > 0 { a2.1 - a2.2 } else { a2.2 - a2.0 },
                abs(a2.3 as int),
            )),
    {
        let (mn1, mx1, o1, d1) = a1;
        let (mn2, mx2, o2, d2) = a2;
        if d1 == 0 || d2 == 0 {
            return true;
        }
        let en: i128 = if d1 > 0 { (mn1 as i128) - (o1 as i128) } else { (o1 as i128) - (mx1 as i128) };
        let ad1: i128 = if d1 > 0 { d1 as i128 } else { -(d1 as i128) };
        let ex: i128 = if d2 > 0 { (mx2 as i128) - (o2 as i128) } else { (o2 as i128) - (mn2 as i128) };
        let ad2: i128 = if d2 > 0 { d2 as i128 } else { -(d2 as i128) };
        proof {
            crate::vec3::lemma_abs_mul_bound(en as int, ad2 as int, 2_000_000);
            crate::vec3::lemma_abs_mul_bound(ex as int, ad1 as int, 2_000_000);
        }
        en * ad2 <= ex * ad1
    }
}

/// If the exact rational point `origin + (tn/td) * direction` lies inside
/// the box (stated cross-multiplied by `td`) and `tn/td >= 0`, the slab
/// test accepts the ray.  This is the completeness direction the BVH
/// traversal relies on: pruning by bounds never hides a genuine hit.
pub proof fn lemma_slab_complete(b: Bounds3, r: Ray, tn: int, td: int)
    requires
        td >= 1,
        tn >= 0,
        b.p_min@.x * td <= r.origin@.x * td + tn * r.direction@.x <= b.p_max@.x * td,
        b.p_min@.y * td <= r.origin@.y * td + tn * r.direction@.y <= b.p_max@.y * td,
        b.p_min@.z * td <= r.origin@.z * td + tn * r.direction@.z <= b.p_max@.z * td,
    ensures
        slab_hit(b, r),
{
    lemma_axis_bounds(b.p_min@.x, b.p_max@.x, r.origin@.x, r.direction@.x, tn, td);
    lemma_axis_bounds(b.p_min@.y, b.p_max@.y, r.origin@.y, r.direction@.y, tn, td);
    lemma_axis_bounds(b.p_min@.z, b.p_max@.z, r.origin@.z, r.direction@.z, tn, td);
    lemma_slab_pairs(b, r, tn, td, Axis::X, Axis::X);
    lemma_slab_pairs(b, r, tn, td, Axis::X, Axis::Y);
    lemma_slab_pairs(b, r, tn, td, Axis::X, Axis::Z);
    lemma_slab_pairs(b, r, tn, td, Axis::Y, Axis::X);
    lemma_slab_pairs(b, r, tn, td, Axis::Y, Axis::Y);
    lemma_slab_pairs(b, r, tn, td, Axis::Y, Axis::Z);
    lemma_slab_pairs(b, r, tn, td, Axis::Z, Axis::X);
    lemma_slab_pairs(b, r, tn, td, Axis::Z, Axis::Y);
    lemma_slab_pairs(b, r, tn, td, Axis::Z, Axis::Z);
}

/// One entry/exit pair of the slab test, shown from the scaled
/// containment of the witness parameter.
proof fn lemma_slab_pairs(b: Bounds3, r: Ray, tn: int, td: int, a1: Axis, a2: Axis)
    requires
        td >= 1,
        tn >= 0,
        axis_of(b.p_min@, a1) * td <= axis_of(r.origin@, a1) * td + tn * axis_of(r.direction@, a1)
            <= axis_of(b.p_max@, a1) * td,
        axis_of(b.p_min@, a2) * td <= axis_of(r.origin@, a2) * td + tn * axis_of(r.direction@, a2)
            <= axis_of(b.p_max@, a2) * td,
    ensures
        pair_ok(b, r, a1, a2),
{
    if axis_of(r.direction@, a1) != 0 && axis_of(r.direction@, a2) != 0 {
        lemma_axis_bounds(axis_of(b.p_min@, a1), axis_of(b.p_max@, a1), axis_of(r.origin@, a1),
            axis_of(r.direction@, a1), tn, td);
        lemma_axis_bounds(axis_of(b.p_min@, a2), axis_of(b.p_max@, a2), axis_of(r.origin@, a2),
            axis_of(r.direction@, a2), tn, td);
        crate::rat::lemma_frac_le_through(en_num(b, r, a1), slab_den(r, a1), tn, td,
            ex_num(b, r, a2), slab_den(r, a2));
    }
}

/// Scalar core of slab completeness on one axis: from the scaled
/// containment of the point, the entry fraction is at most `tn/td` and
/// `tn/td` is at most the exit fraction; parallel axes contain the
/// origin; exits are in front of the origin.
proof fn lemma_axis_bounds(mn: int, mx: int, o: int, d: int, tn: int, td: int) by (nonlinear_arith)
    requires
        td >= 1,
        tn >= 0,
        mn * td <= o * td + tn * d <= mx * td,
    ensures
        d == 0 ==> mn <= o <= mx,
        d != 0 ==> (if d > 0 { mn - o } else { o - mx }) * td <= tn * abs(d),
        d != 0 ==> tn * abs(d) <= (if d > 0 { mx - o } else { o - mn }) * td,
        d != 0 ==> (if d > 0 { mx - o } else { o - mn }) >= 0,
{
}

} // verus!
