use vstd::prelude::*;

use crate::bounds::Bounds3;
use crate::domain::{Intersection, Ray};
use crate::math::{abs, sqrt_floor, tdiv, Math, COORD_LIMIT, SCALE};
use crate::rat::Rat;
use crate::vec3::{Vec3, V3};

verus! {

/// A triangle primitive.  Edges, face normal and area are derived at
/// construction and never mutated.  The triangle knows its own arena
/// index (`id`) so a hit can report the owning primitive, and the arena
/// index of its material.
#[derive(Clone, Copy, Debug)]
pub struct Triangle {
    pub v0: Vec3,
    pub v1: Vec3,
    pub v2: Vec3,
    pub e1: Vec3,
    pub e2: Vec3,
    /// Unnormalised face normal `e1 x e2`.
    pub normal: Vec3,
    /// Twice the area, in fixed-point square units: `|e1 x e2|` rounded
    /// down.
    pub area2: u64,
    pub material: usize,
    pub id: usize,
}

pub open spec fn tri_e1(t: Triangle) -> V3 {
    t.v1@.sub(t.v0@)
}

pub open spec fn tri_e2(t: Triangle) -> V3 {
    t.v2@.sub(t.v0@)
}

// Möller–Trumbore quantities, exactly, over the integers.
pub open spec fn mt_pvec(t: Triangle, r: Ray) -> V3 {
    r.direction@.cross(tri_e2(t))
}

pub open spec fn mt_det(t: Triangle, r: Ray) -> int {
    tri_e1(t).dot(mt_pvec(t, r))
}

pub open spec fn mt_tvec(t: Triangle, r: Ray) -> V3 {
    r.origin@.sub(t.v0@)
}

pub open spec fn mt_unum(t: Triangle, r: Ray) -> int {
    mt_tvec(t, r).dot(mt_pvec(t, r))
}

pub open spec fn mt_qvec(t: Triangle, r: Ray) -> V3 {
    mt_tvec(t, r).cross(tri_e1(t))
}

pub open spec fn mt_vnum(t: Triangle, r: Ray) -> int {
    r.direction@.dot(mt_qvec(t, r))
}

pub open spec fn mt_tnum(t: Triangle, r: Ray) -> int {
    mt_tnum_of(tri_e2(t), mt_qvec(t, r))
}

pub open spec fn mt_tnum_of(e2: V3, qvec: V3) -> int {
    e2.dot(qvec)
}

/// The exact Möller–Trumbore acceptance predicate: positive determinant
/// (front-facing, non-degenerate), barycentric coordinates inside the
/// triangle, hit in front of the origin.  The ray hits the triangle at
/// parameter `mt_tnum / mt_det` exactly when this holds.
pub open spec fn tri_hits(t: Triangle, r: Ray) -> bool {
    &&& mt_det(t, r) > 0
    &&& 0 <= mt_unum(t, r) <= mt_det(t, r)
    &&& 0 <= mt_vnum(t, r)
    &&& mt_unum(t, r) + mt_vnum(t, r) <= mt_det(t, r)
    &&& mt_tnum(t, r) > 0
}

impl Triangle {
    pub open spec fn wf(self) -> bool {
        &&& self.v0.bounded(COORD_LIMIT as int)
        &&& self.v1.bounded(COORD_LIMIT as int)
        &&& self.v2.bounded(COORD_LIMIT as int)
        &&& self.e1@ == tri_e1(self)
        &&& self.e2@ == tri_e2(self)
        &&& self.normal@ == tri_e1(self).cross(tri_e2(self))
        &&& self.area2 == sqrt_floor(self.normal@.norm2() as nat)
        &&& self.area2 <= 5_000_000_000_000u64
    }

    /// The smallest box holding the three vertices.
    pub open spec fn bounds_spec(self) -> Bounds3 {
        Bounds3 {
            p_min: Vec3::min_spec(Vec3::min_spec(self.v0, self.v1), self.v2),
            p_max: Vec3::max_spec(Vec3::max_spec(self.v0, self.v1), self.v2),
        }
    }

    pub fn new(v0: &Vec3, v1: &Vec3, v2: &Vec3, material: usize, id: usize) -> (t: Triangle)
        requires
            v0.bounded(COORD_LIMIT as int),
            v1.bounded(COORD_LIMIT as int),
            v2.bounded(COORD_LIMIT as int),
        ensures
            t.wf(),
            t.v0 == *v0,
            t.v1 == *v1,
            t.v2 == *v2,
            t.material == material,
            t.id == id,
    {
        let e1 = v1.sub(v0);
        let e2 = v2.sub(v0);
        let normal = e1.cross(&e2);
        proof {
            lemma_cross_bound(e1@, e2@, 1_200_000, 1_200_000);
            lemma_dot_bound(normal@, normal@, 2_880_000_000_000, 2_880_000_000_000);
            crate::vec3::lemma_square_nonneg(normal@.x);
            crate::vec3::lemma_square_nonneg(normal@.y);
            crate::vec3::lemma_square_nonneg(normal@.z);
        }
        let n2 = normal.norm2();
        let a2 = Math::isqrt(n2 as u128);
        proof {
            assert(a2 <= 5_000_000_000_000u64) by (nonlinear_arith)
                requires
                    a2 * a2 <= n2,
                    n2 <= 24_883_200_000_000_000_000_000_000i128,
            ;
        }
        Triangle {
            v0: *v0,
            v1: *v1,
            v2: *v2,
            e1,
            e2,
            normal,
            area2: a2 as u64,
            material,
            id,
        }
    }

    /// Twice the triangle's area in fixed-point square units.
    pub fn get_area(&self) -> (a: u64)
        ensures
            a == self.area2,
    {
        self.area2
    }

    pub fn get_bounds(&self) -> (b: Bounds3)
        requires
            self.wf(),
        ensures
            b == self.bounds_spec(),
            b.wf(),
            b.contains_point(self.v0@),
            b.contains_point(self.v1@),
            b.contains_point(self.v2@),
    {
        let mut b = Bounds3::from_points(&self.v0, &self.v1);
        b.union_point(&self.v2);
        b
    }

    /// Exact Möller–Trumbore ray/triangle intersection.  Degenerate
    /// triangles have determinant zero and always miss; there is no
    /// epsilon.  On a hit the reported distance is the exact rational
    /// ray parameter, the hit point is that parameter evaluated on the
    /// fixed-point grid, and the handles identify this primitive.
    pub fn intersect(&self, ray: &Ray) -> (res: Intersection)
        requires
            self.wf(),
            ray.wf(),
        ensures
            res.wf(),
            res.hit == tri_hits(*self, *ray),
            res.hit ==> (res.distance matches Some(d) && d.num == mt_tnum(*self, *ray) && d.den
                == mt_det(*self, *ray) && d.wf()),
            res.hit ==> res.obj == Some(self.id) && res.material == Some(self.material)
                && res.normal == self.normal,
            res.hit ==> res.coords@.x == tdiv(
                ray.origin@.x * mt_det(*self, *ray) + mt_tnum(*self, *ray) * ray.direction@.x,
                mt_det(*self, *ray)) && res.coords@.y == tdiv(
                ray.origin@.y * mt_det(*self, *ray) + mt_tnum(*self, *ray) * ray.direction@.y,
                mt_det(*self, *ray)) && res.coords@.z == tdiv(
                ray.origin@.z * mt_det(*self, *ray) + mt_tnum(*self, *ray) * ray.direction@.z,
                mt_det(*self, *ray)),
            res.hit ==> res.coords.bounded(601_000) && res.normal.bounded(
                3_000_000_000_000),
            !res.hit ==> res.distance is None && res.obj is None && res.material is None,
    {
        let pvec = ray.direction.cross(&self.e2);
        proof {
            lemma_cross_bound(ray.direction@, tri_e2(*self), crate::domain::RAY_LIMIT as int,
                1_200_000);
            lemma_dot_bound(tri_e1(*self), mt_pvec(*self, *ray), 1_200_000, 1_444_800_000_000);
            lemma_dot_bound(mt_tvec(*self, *ray), mt_pvec(*self, *ray), 1_202_000,
                1_444_800_000_000);
        }
        let det = self.e1.dot(&pvec);
        if det <= 0 {
            return Intersection::new();
        }
        let tvec = ray.origin.sub(&self.v0);
        let unum = tvec.dot(&pvec);
        if unum < 0 || unum > det {
            return Intersection::new();
        }
        let qvec = tvec.cross(&self.e1);
        proof {
            lemma_cross_bound(mt_tvec(*self, *ray), tri_e1(*self), 1_202_000, 1_200_000);
            lemma_dot_bound(ray.direction@, mt_qvec(*self, *ray),
                crate::domain::RAY_LIMIT as int, 2_884_800_000_000);
            lemma_dot_bound(tri_e2(*self), mt_qvec(*self, *ray), 1_200_000, 2_884_800_000_000);
        }
        let vnum = ray.direction.dot(&qvec);
        if vnum < 0 || unum + vnum > det {
            return Intersection::new();
        }
        let tnum = self.e2.dot(&qvec);
        if tnum <= 0 {
            return Intersection::new();
        }
        let dist = Rat::new(tnum, det);
        proof {
            lemma_tri_hit_in_box(*self, *ray, self.bounds_spec());
            lemma_coord_fits(self.bounds_spec().p_min@.x, self.bounds_spec().p_max@.x,
                ray.origin@.x * mt_det(*self, *ray) + mt_tnum(*self, *ray) * ray.direction@.x,
                mt_det(*self, *ray));
            lemma_coord_fits(self.bounds_spec().p_min@.y, self.bounds_spec().p_max@.y,
                ray.origin@.y * mt_det(*self, *ray) + mt_tnum(*self, *ray) * ray.direction@.y,
                mt_det(*self, *ray));
            lemma_coord_fits(self.bounds_spec().p_min@.z, self.bounds_spec().p_max@.z,
                ray.origin@.z * mt_det(*self, *ray) + mt_tnum(*self, *ray) * ray.direction@.z,
                mt_det(*self, *ray));
        }
        proof {
            lemma_cross_bound(tri_e1(*self), tri_e2(*self), 1_200_000, 1_200_000);
        }
        let coords = ray.eval(&dist);
        Intersection {
            hit: true,
            coords,
            normal: self.normal,
            emit: Vec3 { x: 0, y: 0, z: 0 },
            distance: Some(dist),
            obj: Some(self.id),
            material: Some(self.material),
        }
    }

    /// Uniform area sample: with fresh unit draws `u1, u2`, the point is
    /// `(1-x) v0 + x (1-u2) v1 + x u2 v2` on the fixed-point grid, where
    /// `x = sqrt(u1)`.  The pdf is exactly `1 / area`, reported as the
    /// rational `2 / area2`.
    pub fn sample(&self) -> (res: (Intersection, Rat))
        requires
            self.wf(),
        ensures
            res.0.hit,
            res.0.wf(),
            res.0.normal == self.normal,
            valid_tri_sample(*self, res.0.coords),
            res.1.num == 2 && res.1.den == (if self.area2 >= 1 { self.area2 as int } else { 1int }),
    {
        let u1 = crate::random::sample_unit();
        let u2 = crate::random::sample_unit();
        let xr = Math::isqrt((u1 as u128) * (SCALE as u128));
        proof {
            assert(xr * xr <= 1_000_000);
            assert(xr <= 1000) by (nonlinear_arith)
                requires
                    xr * xr <= 1_000_000,
            ;
        }
        let x = xr as i64;
        let coords = barycentric_point(&self.v0, &self.v1, &self.v2, x, u2);
        let inter = Intersection {
            hit: true,
            coords,
            normal: self.normal,
            emit: Vec3 { x: 0, y: 0, z: 0 },
            distance: Some(Rat::zero()),
            obj: Some(self.id),
            material: Some(self.material),
        };
        let den: u64 = if self.area2 >= 1 { self.area2 } else { 1 };
        (inter, Rat::new(2, den as i128))
    }
}

/// `coords` is the fixed-point barycentric combination of the vertices
/// for some pair of unit draws.
pub open spec fn valid_tri_sample(t: Triangle, coords: Vec3) -> bool {
    exists|x: int, u2: int|
        0 <= x <= SCALE && 0 <= u2 <= SCALE && coords@ == bary_spec(t.v0, t.v1, t.v2, x, u2)
}

/// The fixed-point barycentric point `(1-x) v0 + x (1-u2) v1 + x u2 v2`
/// (fractions of `SCALE`), truncated to the grid.
pub open spec fn bary_spec(v0: Vec3, v1: Vec3, v2: Vec3, x: int, u2: int) -> V3 {
    V3 {
        x: tdiv((SCALE - x) * SCALE * v0@.x + x * (SCALE - u2) * v1@.x + x * u2 * v2@.x,
            SCALE * SCALE),
        y: tdiv((SCALE - x) * SCALE * v0@.y + x * (SCALE - u2) * v1@.y + x * u2 * v2@.y,
            SCALE * SCALE),
        z: tdiv((SCALE - x) * SCALE * v0@.z + x * (SCALE - u2) * v1@.z + x * u2 * v2@.z,
            SCALE * SCALE),
    }
}

fn barycentric_point(v0: &Vec3, v1: &Vec3, v2: &Vec3, x: i64, u2: i64) -> (p: Vec3)
    requires
        v0.bounded(COORD_LIMIT as int),
        v1.bounded(COORD_LIMIT as int),
        v2.bounded(COORD_LIMIT as int),
        0 <= x <= SCALE,
        0 <= u2 <= SCALE,
    ensures
        p@ == bary_spec(*v0, *v1, *v2, x as int, u2 as int),
{
    let px = bary_axis(v0.x, v1.x, v2.x, x, u2);
    let py = bary_axis(v0.y, v1.y, v2.y, x, u2);
    let pz = bary_axis(v0.z, v1.z, v2.z, x, u2);
    Vec3 { x: px, y: py, z: pz }
}

fn bary_axis(a: i64, b: i64, c: i64, x: i64, u2: i64) -> (r: i64)
    requires
        abs(a as int) <= COORD_LIMIT as int,
        abs(b as int) <= COORD_LIMIT as int,
        abs(c as int) <= COORD_LIMIT as int,
        0 <= x <= SCALE,
        0 <= u2 <= SCALE,
    ensures
        r == tdiv((SCALE - x) * SCALE * a + x * (SCALE - u2) * b + x * u2 * c, SCALE * SCALE),
{
    proof {
        lemma_bary_axis_fits(a as int, b as int, c as int, x as int, u2 as int);
    }
    let num: i128 = ((SCALE - x) as i128) * (SCALE as i128) * (a as i128) + (x as i128) * ((SCALE
        - u2) as i128) * (b as i128) + (x as i128) * (u2 as i128) * (c as i128);
    let q = Math::div_trunc(num, (SCALE as i128) * (SCALE as i128));
    q as i64
}

proof fn lemma_bary_axis_fits(a: int, b: int, c: int, x: int, u2: int) by (nonlinear_arith)
    requires
        abs(a) <= COORD_LIMIT as int,
        abs(b) <= COORD_LIMIT as int,
        abs(c) <= COORD_LIMIT as int,
        0 <= x <= SCALE,
        0 <= u2 <= SCALE,
        SCALE == 1000,
    ensures
        abs((SCALE - x) * SCALE) <= 1_000_000,
        abs(x * (SCALE - u2)) <= 1_000_000,
        abs(x * u2) <= 1_000_000,
        abs((SCALE - x) * SCALE * a) <= 600_000_000_000i64 as int,
        abs(x * (SCALE - u2) * b) <= 600_000_000_000i64 as int,
        abs(x * u2 * c) <= 600_000_000_000i64 as int,
        abs(tdiv((SCALE - x) * SCALE * a + x * (SCALE - u2) * b + x * u2 * c, SCALE * SCALE))
            <= 1_800_000_000_000i64 as int,
{
    crate::vec3::lemma_tdiv_shrinks((SCALE - x) * SCALE * a + x * (SCALE - u2) * b + x * u2 * c,
        SCALE * SCALE);
}

/// `|a| <= ma` and `|b| <= mb` bound the product by `ma * mb`.
proof fn lemma_mul_bound2(a: int, b: int, ma: int, mb: int) by (nonlinear_arith)
    requires
        abs(a) <= ma,
        abs(b) <= mb,
    ensures
        abs(a * b) <= ma * mb,
{
}

/// Componentwise bound on a cross product from bounds on its operands.
pub proof fn lemma_cross_bound(a: V3, b: V3, m1: int, m2: int)
    requires
        a.bounded(m1),
        b.bounded(m2),
        m1 >= 0,
        m2 >= 0,
    ensures
        a.cross(b).bounded(2 * m1 * m2),
{
    lemma_mul_bound2(a.y, b.z, m1, m2);
    lemma_mul_bound2(a.z, b.y, m1, m2);
    lemma_mul_bound2(a.z, b.x, m1, m2);
    lemma_mul_bound2(a.x, b.z, m1, m2);
    lemma_mul_bound2(a.x, b.y, m1, m2);
    lemma_mul_bound2(a.y, b.x, m1, m2);
    assert(2 * m1 * m2 == m1 * m2 + m1 * m2) by (nonlinear_arith);
}

/// Bound on a dot product from bounds on its operands.
pub proof fn lemma_dot_bound(a: V3, b: V3, m1: int, m2: int)
    requires
        a.bounded(m1),
        b.bounded(m2),
        m1 >= 0,
        m2 >= 0,
    ensures
        abs(a.dot(b)) <= 3 * m1 * m2,
{
    lemma_mul_bound2(a.x, b.x, m1, m2);
    lemma_mul_bound2(a.y, b.y, m1, m2);
    lemma_mul_bound2(a.z, b.z, m1, m2);
    assert(3 * m1 * m2 == m1 * m2 + m1 * m2 + m1 * m2) by (nonlinear_arith);
}

/// A triple product with collinear second pair vanishes:
/// if `a x c == 0` then `a . (b x c) == 0`.
proof fn lemma_det_zero(
    ax: int, ay: int, az: int,
    bx: int, by: int, bz: int,
    cx: int, cy: int, cz: int,
)
    requires
        ay * cz - az * cy == 0,
        az * cx - ax * cz == 0,
        ax * cy - ay * cx == 0,
    ensures
        ax * (by * cz - bz * cy) + ay * (bz * cx - bx * cz) + az * (bx * cy - by * cx) == 0,
{
    vstd::arithmetic::mul::lemma_mul_is_distributive_sub(ax, by * cz, bz * cy);
    vstd::arithmetic::mul::lemma_mul_is_distributive_sub(ay, bz * cx, bx * cz);
    vstd::arithmetic::mul::lemma_mul_is_distributive_sub(az, bx * cy, by * cx);
    vstd::arithmetic::mul::lemma_mul_is_distributive_sub(bx, az * cy, ay * cz);
    vstd::arithmetic::mul::lemma_mul_is_distributive_sub(by, ax * cz, az * cx);
    vstd::arithmetic::mul::lemma_mul_is_distributive_sub(bz, ay * cx, ax * cy);
    lemma_swap_heads(ax, by, cz);
    lemma_swap_heads(ax, bz, cy);
    lemma_swap_heads(ay, bz, cx);
    lemma_swap_heads(ay, bx, cz);
    lemma_swap_heads(az, bx, cy);
    lemma_swap_heads(az, by, cx);
    assert(az * cy - ay * cz == 0);
    assert(bx * (az * cy - ay * cz) == bx * 0);
    vstd::arithmetic::mul::lemma_mul_by_zero_is_zero(bx);
    assert(ax * cz - az * cx == 0);
    assert(by * (ax * cz - az * cx) == by * 0);
    vstd::arithmetic::mul::lemma_mul_by_zero_is_zero(by);
    assert(ay * cx - ax * cy == 0);
    assert(bz * (ay * cx - ax * cy) == bz * 0);
    vstd::arithmetic::mul::lemma_mul_by_zero_is_zero(bz);
}

/// `x * (y * z) == y * (x * z)`.
proof fn lemma_swap_heads(x: int, y: int, z: int)
    ensures
        x * (y * z) == y * (x * z),
{
    vstd::arithmetic::mul::lemma_mul_is_associative(x, y, z);
    vstd::arithmetic::mul::lemma_mul_is_commutative(x, y);
    vstd::arithmetic::mul::lemma_mul_is_associative(y, x, z);
}

/// A degenerate (collinear) triangle has zero cross product, hence zero
/// Möller–Trumbore determinant, and is missed by every ray.
pub proof fn lemma_degenerate_misses(t: Triangle, r: Ray)
    requires
        tri_e1(t).cross(tri_e2(t)) == (V3 { x: 0int, y: 0int, z: 0int }),
    ensures
        !tri_hits(t, r),
{
    let a = tri_e1(t);
    let b = r.direction@;
    let c = tri_e2(t);
    assert(a.cross(c).x == 0 && a.cross(c).y == 0 && a.cross(c).z == 0);
    lemma_det_zero(a.x, a.y, a.z, b.x, b.y, b.z, c.x, c.y, c.z);
    assert(mt_det(t, r) == 0);
}

/// Scaled coordinates inside the world's cap fit the fixed-point grid.
proof fn lemma_coord_fits(lo: int, hi: int, expr: int, det: int) by (nonlinear_arith)
    requires
        det >= 1,
        lo * det <= expr <= hi * det,
        -600_000 <= lo,
        hi <= 600_000,
    ensures
        abs(expr) <= 0x4000_0000_0000_0000i64 * det,
        abs(tdiv(expr, det)) <= 600_000,
{
    crate::math::lemma_tdiv_bound(expr, det, 600_000);
}

/// Expanding one side of the Cramer identity: multiplying two triple
/// sums by the leading coefficients and cancelling the shared term.
proof fn lemma_expand_side(
    c1: int, c2: int, c3: int,
    m1: int, m2: int, m3: int,
    s1: int, s2: int, s3: int,
)
    ensures
        (c1 * m1 + c2 * m2 + c3 * m3) * s1 - (s1 * m1 + s2 * m2 + s3 * m3) * c1 == m2 * (c2 * s1
            - c1 * s2) + m3 * (c3 * s1 - c1 * s3),
{
    vstd::arithmetic::mul::lemma_mul_is_distributive_add_other_way(s1, c1 * m1 + c2 * m2, c3 * m3);
    vstd::arithmetic::mul::lemma_mul_is_distributive_add_other_way(s1, c1 * m1, c2 * m2);
    vstd::arithmetic::mul::lemma_mul_is_distributive_add_other_way(c1, s1 * m1 + s2 * m2, s3 * m3);
    vstd::arithmetic::mul::lemma_mul_is_distributive_add_other_way(c1, s1 * m1, s2 * m2);
    vstd::arithmetic::mul::lemma_mul_is_distributive_sub(m2, c2 * s1, c1 * s2);
    vstd::arithmetic::mul::lemma_mul_is_distributive_sub(m3, c3 * s1, c1 * s3);
    lemma_tail_to_front(c1, m1, s1);
    lemma_tail_to_front(s1, m1, c1);
    assert(c1 * m1 * s1 == s1 * m1 * c1) by {
        vstd::arithmetic::mul::lemma_mul_is_commutative(m1, c1);
        vstd::arithmetic::mul::lemma_mul_is_commutative(m1 * c1, s1);
        vstd::arithmetic::mul::lemma_mul_is_associative(s1, m1, c1);
        vstd::arithmetic::mul::lemma_mul_is_commutative(c1, m1);
        vstd::arithmetic::mul::lemma_mul_is_associative(c1, m1, s1);
        vstd::arithmetic::mul::lemma_mul_is_commutative(c1 * m1, s1);
        vstd::arithmetic::mul::lemma_mul_is_commutative(s1, m1 * c1);
    }
    lemma_tail_to_front(c2, m2, s1);
    lemma_tail_to_front(s2, m2, c1);
    lemma_tail_to_front(c3, m3, s1);
    lemma_tail_to_front(s3, m3, c1);
}

/// `(x * m) * s == m * (x * s)`.
proof fn lemma_tail_to_front(x: int, m: int, s: int)
    ensures
        (x * m) * s == m * (x * s),
{
    vstd::arithmetic::mul::lemma_mul_is_commutative(x, m);
    vstd::arithmetic::mul::lemma_mul_is_associative(m, x, s);
}

/// The four cofactor cross terms of the Cramer identity cancel.
proof fn lemma_cross_terms(
    ax: int, ay: int, az: int,
    sx: int, sy: int, sz: int,
    bx: int, by: int, bz: int,
    dx: int, dy: int, dz: int,
)
    ensures
        (dz * bx - dx * bz) * (ay * sx - ax * sy) + (dx * by - dy * bx) * (az * sx - ax * sz) + (
        sz * ax - sx * az) * (by * dx - bx * dy) + (sx * ay - sy * ax) * (bz * dx - bx * dz) == 0,
{
    vstd::arithmetic::mul::lemma_mul_is_commutative(dz, bx);
    vstd::arithmetic::mul::lemma_mul_is_commutative(dx, bz);
    vstd::arithmetic::mul::lemma_mul_is_commutative(ay, sx);
    vstd::arithmetic::mul::lemma_mul_is_commutative(ax, sy);
    assert(dz * bx - dx * bz == -(bz * dx - bx * dz));
    assert(ay * sx - ax * sy == sx * ay - sy * ax);
    vstd::arithmetic::mul::lemma_mul_unary_negation(bz * dx - bx * dz, sx * ay - sy * ax);
    vstd::arithmetic::mul::lemma_mul_is_commutative(bz * dx - bx * dz, sx * ay - sy * ax);
    assert((dz * bx - dx * bz) * (ay * sx - ax * sy) == -((sx * ay - sy * ax) * (bz * dx - bx
        * dz)));
    vstd::arithmetic::mul::lemma_mul_is_commutative(dx, by);
    vstd::arithmetic::mul::lemma_mul_is_commutative(dy, bx);
    vstd::arithmetic::mul::lemma_mul_is_commutative(az, sx);
    vstd::arithmetic::mul::lemma_mul_is_commutative(ax, sz);
    assert(dx * by - dy * bx == by * dx - bx * dy);
    assert(az * sx - ax * sz == -(sz * ax - sx * az));
    assert((dx * by - dy * bx) * (az * sx - ax * sz) == (by * dx - bx * dy) * (-(sz * ax - sx
        * az)));
    vstd::arithmetic::mul::lemma_mul_is_commutative(by * dx - bx * dy, -(sz * ax - sx * az));
    vstd::arithmetic::mul::lemma_mul_unary_negation(sz * ax - sx * az, by * dx - bx * dy);
    vstd::arithmetic::mul::lemma_mul_is_commutative(sz * ax - sx * az, by * dx - bx * dy);
}

/// Cramer's rule for the Möller–Trumbore solution, one component:
/// `det * s + tnum * d == unum * e1 + vnum * e2`.
proof fn lemma_cramer_axis(
    sx: int, sy: int, sz: int,
    dx: int, dy: int, dz: int,
    ax: int, ay: int, az: int,
    bx: int, by: int, bz: int,
    det: int, unum: int, vnum: int, tnum: int,
)
    requires
        det == ax * (dy * bz - dz * by) + ay * (dz * bx - dx * bz) + az * (dx * by - dy * bx),
        unum == sx * (dy * bz - dz * by) + sy * (dz * bx - dx * bz) + sz * (dx * by - dy * bx),
        vnum == dx * (sy * az - sz * ay) + dy * (sz * ax - sx * az) + dz * (sx * ay - sy * ax),
        tnum == bx * (sy * az - sz * ay) + by * (sz * ax - sx * az) + bz * (sx * ay - sy * ax),
    ensures
        det * sx + tnum * dx == unum * ax + vnum * bx,
{
    let m1 = dy * bz - dz * by;
    let m2 = dz * bx - dx * bz;
    let m3 = dx * by - dy * bx;
    let q1 = sy * az - sz * ay;
    let q2 = sz * ax - sx * az;
    let q3 = sx * ay - sy * ax;
    lemma_expand_side(ax, ay, az, m1, m2, m3, sx, sy, sz);
    assert(det * sx - unum * ax == m2 * (ay * sx - ax * sy) + m3 * (az * sx - ax * sz));
    lemma_expand_side(bx, by, bz, q1, q2, q3, dx, dy, dz);
    assert(tnum * dx - vnum * bx == q2 * (by * dx - bx * dy) + q3 * (bz * dx - bx * dz));
    lemma_cross_terms(ax, ay, az, sx, sy, sz, bx, by, bz, dx, dy, dz);
}

/// A convex combination with weights `det - unum - vnum, unum, vnum`
/// stays within per-axis vertex bounds, scaled by `det`.
proof fn lemma_mt_point_in_range(
    det: int, unum: int, vnum: int, tnum: int,
    ox: int, dx: int,
    v0x: int, v1x: int, v2x: int,
    lo: int, hi: int,
) by (nonlinear_arith)
    requires
        det > 0,
        unum >= 0,
        vnum >= 0,
        unum + vnum <= det,
        det * (ox - v0x) + tnum * dx == unum * (v1x - v0x) + vnum * (v2x - v0x),
        lo <= v0x <= hi,
        lo <= v1x <= hi,
        lo <= v2x <= hi,
    ensures
        lo * det <= ox * det + tnum * dx <= hi * det,
{
    assert(ox * det + tnum * dx == (det - unum - vnum) * v0x + unum * v1x + vnum * v2x);
}

/// The hit point of an accepted Möller–Trumbore intersection lies inside
/// every box that contains the triangle's vertices, stated exactly with
/// the hit parameter `mt_tnum / mt_det` cross-multiplied by the
/// determinant.  Together with the slab-completeness lemma this is why
/// BVH pruning never hides a genuine hit.
pub proof fn lemma_tri_hit_in_box(t: Triangle, r: Ray, b: Bounds3)
    requires
        tri_hits(t, r),
        b.contains_point(t.v0@),
        b.contains_point(t.v1@),
        b.contains_point(t.v2@),
    ensures
        b.p_min@.x * mt_det(t, r) <= r.origin@.x * mt_det(t, r) + mt_tnum(t, r) * r.direction@.x
            <= b.p_max@.x * mt_det(t, r),
        b.p_min@.y * mt_det(t, r) <= r.origin@.y * mt_det(t, r) + mt_tnum(t, r) * r.direction@.y
            <= b.p_max@.y * mt_det(t, r),
        b.p_min@.z * mt_det(t, r) <= r.origin@.z * mt_det(t, r) + mt_tnum(t, r) * r.direction@.z
            <= b.p_max@.z * mt_det(t, r),
{
    let s = mt_tvec(t, r);
    let d = r.direction@;
    let a = tri_e1(t);
    let bb = tri_e2(t);
    let det = mt_det(t, r);
    let unum = mt_unum(t, r);
    let vnum = mt_vnum(t, r);
    let tnum = mt_tnum(t, r);
    lemma_cramer_axis(s.x, s.y, s.z, d.x, d.y, d.z, a.x, a.y, a.z, bb.x, bb.y, bb.z, det, unum,
        vnum, tnum);
    lemma_cramer_axis(s.y, s.z, s.x, d.y, d.z, d.x, a.y, a.z, a.x, bb.y, bb.z, bb.x, det, unum,
        vnum, tnum);
    lemma_cramer_axis(s.z, s.x, s.y, d.z, d.x, d.y, a.z, a.x, a.y, bb.z, bb.x, bb.y, det, unum,
        vnum, tnum);
    lemma_mt_point_in_range(det, unum, vnum, tnum, r.origin@.x, d.x, t.v0@.x, t.v1@.x, t.v2@.x,
        b.p_min@.x, b.p_max@.x);
    lemma_mt_point_in_range(det, unum, vnum, tnum, r.origin@.y, d.y, t.v0@.y, t.v1@.y, t.v2@.y,
        b.p_min@.y, b.p_max@.y);
    lemma_mt_point_in_range(det, unum, vnum, tnum, r.origin@.z, d.z, t.v0@.z, t.v1@.z, t.v2@.z,
        b.p_min@.z, b.p_max@.z);
}

} // verus!
