use vstd::prelude::*;

use crate::math::{abs, lemma_sqrt_floor, sqrt_floor, tdiv, Math, SCALE};

verus! {

/// Mathematical (unbounded) 3-vector used by specifications.
pub struct V3 {
    pub x: int,
    pub y: int,
    pub z: int,
}

impl V3 {
    pub open spec fn add(self, o: V3) -> V3 {
        V3 { x: self.x + o.x, y: self.y + o.y, z: self.z + o.z }
    }

    pub open spec fn sub(self, o: V3) -> V3 {
        V3 { x: self.x - o.x, y: self.y - o.y, z: self.z - o.z }
    }

    pub open spec fn neg(self) -> V3 {
        V3 { x: -self.x, y: -self.y, z: -self.z }
    }

    pub open spec fn dot(self, o: V3) -> int {
        self.x * o.x + self.y * o.y + self.z * o.z
    }

    pub open spec fn cross(self, o: V3) -> V3 {
        V3 {
            x: self.y * o.z - self.z * o.y,
            y: self.z * o.x - self.x * o.z,
            z: self.x * o.y - self.y * o.x,
        }
    }

    pub open spec fn norm2(self) -> int {
        self.dot(self)
    }

    pub open spec fn bounded(self, b: int) -> bool {
        abs(self.x) <= b && abs(self.y) <= b && abs(self.z) <= b
    }
}

/// Fixed-point 3-vector: components are integer multiples of `1/SCALE`
/// of a world unit.
#[derive(Clone, Copy, PartialEq, Eq, Structural, Debug)]
pub struct Vec3 {
    pub x: i64,
    pub y: i64,
    pub z: i64,
}

impl View for Vec3 {
    type V = V3;

    open spec fn view(&self) -> V3 {
        V3 { x: self.x as int, y: self.y as int, z: self.z as int }
    }
}

/// Componentwise magnitude cap under which addition and subtraction of two
/// vectors cannot overflow.
pub const ADD_LIMIT: i64 = 0x2000_0000_0000_0000;

/// Componentwise magnitude cap under which a dot product of two vectors
/// stays within `i128`.
pub const DOT_LIMIT: i64 = 0xB50_4F33_3F9D_E648;

/// Componentwise magnitude cap on cross-product operands; the resulting
/// components are then at most `2 * CROSS_LIMIT * CROSS_LIMIT`.
pub const CROSS_LIMIT: i64 = 2_000_000;

/// Componentwise magnitude cap for `length` and `normalize`; wide enough
/// for raw cross products (face normals).
pub const NORM_LIMIT: i64 = 7_000_000_000_000;

/// Componentwise magnitude cap on colour values handed to `modulate`.
pub const COLOR_LIMIT: i64 = 2_000_000_000;

impl Vec3 {
    pub open spec fn bounded(self, b: int) -> bool {
        self@.bounded(b)
    }

    /// Componentwise minimum, as a mathematical function.
    pub open spec fn min_spec(a: Vec3, b: Vec3) -> Vec3 {
        Vec3 {
            x: if a.x <= b.x { a.x } else { b.x },
            y: if a.y <= b.y { a.y } else { b.y },
            z: if a.z <= b.z { a.z } else { b.z },
        }
    }

    /// Componentwise maximum, as a mathematical function.
    pub open spec fn max_spec(a: Vec3, b: Vec3) -> Vec3 {
        Vec3 {
            x: if a.x >= b.x { a.x } else { b.x },
            y: if a.y >= b.y { a.y } else { b.y },
            z: if a.z >= b.z { a.z } else { b.z },
        }
    }

    /// Runtime check of the componentwise magnitude cap.
    pub fn bounded_exec(&self, b: i64) -> (r: bool)
        requires
            b >= 0,
        ensures
            r == self.bounded(b as int),
    {
        -b <= self.x && self.x <= b && -b <= self.y && self.y <= b && -b <= self.z && self.z
            <= b
    }

    pub fn new(x: i64, y: i64, z: i64) -> (r: Vec3)
        ensures
            r@ == (V3 { x: x as int, y: y as int, z: z as int }),
    {
        Vec3 { x, y, z }
    }

    pub fn zero() -> (r: Vec3)
        ensures
            r@ == (V3 { x: 0int, y: 0int, z: 0int }),
    {
        Vec3 { x: 0, y: 0, z: 0 }
    }

    pub fn add(&self, o: &Vec3) -> (r: Vec3)
        requires
            self.bounded(ADD_LIMIT as int),
            o.bounded(ADD_LIMIT as int),
        ensures
            r@ == self@.add(o@),
    {
        Vec3 { x: self.x + o.x, y: self.y + o.y, z: self.z + o.z }
    }

    pub fn sub(&self, o: &Vec3) -> (r: Vec3)
        requires
            self.bounded(ADD_LIMIT as int),
            o.bounded(ADD_LIMIT as int),
        ensures
            r@ == self@.sub(o@),
    {
        Vec3 { x: self.x - o.x, y: self.y - o.y, z: self.z - o.z }
    }

    pub fn neg(&self) -> (r: Vec3)
        requires
            self.bounded(ADD_LIMIT as int),
        ensures
            r@ == self@.neg(),
    {
        Vec3 { x: -self.x, y: -self.y, z: -self.z }
    }

    /// Componentwise minimum.
    pub fn min(a: &Vec3, b: &Vec3) -> (r: Vec3)
        ensures
            r.x == if a.x <= b.x { a.x } else { b.x },
            r.y == if a.y <= b.y { a.y } else { b.y },
            r.z == if a.z <= b.z { a.z } else { b.z },
    {
        Vec3 {
            x: if a.x <= b.x { a.x } else { b.x },
            y: if a.y <= b.y { a.y } else { b.y },
            z: if a.z <= b.z { a.z } else { b.z },
        }
    }

    /// Componentwise maximum.
    pub fn max(a: &Vec3, b: &Vec3) -> (r: Vec3)
        ensures
            r.x == if a.x >= b.x { a.x } else { b.x },
            r.y == if a.y >= b.y { a.y } else { b.y },
            r.z == if a.z >= b.z { a.z } else { b.z },
    {
        Vec3 {
            x: if a.x >= b.x { a.x } else { b.x },
            y: if a.y >= b.y { a.y } else { b.y },
            z: if a.z >= b.z { a.z } else { b.z },
        }
    }

    pub fn dot(&self, o: &Vec3) -> (r: i128)
        requires
            self.bounded(DOT_LIMIT as int),
            o.bounded(DOT_LIMIT as int),
        ensures
            r == self@.dot(o@),
    {
        proof {
            lemma_abs_mul_bound(self.x as int, o.x as int, DOT_LIMIT as int);
            lemma_abs_mul_bound(self.y as int, o.y as int, DOT_LIMIT as int);
            lemma_abs_mul_bound(self.z as int, o.z as int, DOT_LIMIT as int);
        }
        (self.x as i128) * (o.x as i128) + (self.y as i128) * (o.y as i128) + (self.z as i128)
            * (o.z as i128)
    }

    pub fn cross(&self, o: &Vec3) -> (r: Vec3)
        requires
            self.bounded(CROSS_LIMIT as int),
            o.bounded(CROSS_LIMIT as int),
        ensures
            r@ == self@.cross(o@),
            r.bounded(2 * CROSS_LIMIT * CROSS_LIMIT),
    {
        proof {
            lemma_abs_mul_bound(self.y as int, o.z as int, CROSS_LIMIT as int);
            lemma_abs_mul_bound(self.z as int, o.y as int, CROSS_LIMIT as int);
            lemma_abs_mul_bound(self.z as int, o.x as int, CROSS_LIMIT as int);
            lemma_abs_mul_bound(self.x as int, o.z as int, CROSS_LIMIT as int);
            lemma_abs_mul_bound(self.x as int, o.y as int, CROSS_LIMIT as int);
            lemma_abs_mul_bound(self.y as int, o.x as int, CROSS_LIMIT as int);
        }
        let cx = (self.y as i128) * (o.z as i128) - (self.z as i128) * (o.y as i128);
        let cy = (self.z as i128) * (o.x as i128) - (self.x as i128) * (o.z as i128);
        let cz = (self.x as i128) * (o.y as i128) - (self.y as i128) * (o.x as i128);
        Vec3 { x: cx as i64, y: cy as i64, z: cz as i64 }
    }

    /// Squared Euclidean norm.
    pub fn norm2(&self) -> (r: i128)
        requires
            self.bounded(DOT_LIMIT as int),
        ensures
            r == self@.norm2(),
            r >= 0,
    {
        proof {
            lemma_square_nonneg(self.x as int);
            lemma_square_nonneg(self.y as int);
            lemma_square_nonneg(self.z as int);
        }
        self.dot(self)
    }

    /// Fixed-point Euclidean length: the floor of the exact length, in the
    /// same `1/SCALE` units as the components.
    pub fn length(&self) -> (r: i64)
        requires
            self.bounded(NORM_LIMIT as int),
        ensures
            r == sqrt_floor(self@.norm2() as nat),
            0 <= r <= 13_000_000_000_000i64,
    {
        let n2 = self.norm2();
        proof {
            lemma_abs_mul_bound(self.x as int, self.x as int, NORM_LIMIT as int);
            lemma_abs_mul_bound(self.y as int, self.y as int, NORM_LIMIT as int);
            lemma_abs_mul_bound(self.z as int, self.z as int, NORM_LIMIT as int);
        }
        let r = Math::isqrt(n2 as u128);
        proof {
            assert(r <= 13_000_000_000_000i64 as int) by (nonlinear_arith)
                requires
                    r * r <= n2,
                    n2 <= 147_000_000_000_000_000_000_000_000i128,
            ;
        }
        r as i64
    }

    /// Scale by the exact rational `num/den` with truncation, componentwise.
    pub fn scale_div(&self, num: i64, den: i64) -> (r: Vec3)
        requires
            den > 0,
            self.bounded(0x4000_0000_0000i64 as int),
            abs(num as int) <= 0x4000_0000_0000i64 as int,
            abs(tdiv(self@.x * num, den as int)) <= i64::MAX,
            abs(tdiv(self@.y * num, den as int)) <= i64::MAX,
            abs(tdiv(self@.z * num, den as int)) <= i64::MAX,
        ensures
            r@.x == tdiv(self@.x * num, den as int),
            r@.y == tdiv(self@.y * num, den as int),
            r@.z == tdiv(self@.z * num, den as int),
    {
        proof {
            lemma_abs_mul_bound(self.x as int, num as int, 0x4000_0000_0000i64 as int);
            lemma_abs_mul_bound(self.y as int, num as int, 0x4000_0000_0000i64 as int);
            lemma_abs_mul_bound(self.z as int, num as int, 0x4000_0000_0000i64 as int);
        }
        let x = Math::div_trunc((self.x as i128) * (num as i128), den as i128);
        let y = Math::div_trunc((self.y as i128) * (num as i128), den as i128);
        let z = Math::div_trunc((self.z as i128) * (num as i128), den as i128);
        Vec3 { x: x as i64, y: y as i64, z: z as i64 }
    }

    /// Componentwise fixed-point product, as a mathematical function.
    pub open spec fn modulate_spec(a: Vec3, b: Vec3) -> Vec3 {
        Vec3 {
            x: tdiv(a@.x * b@.x, SCALE as int) as i64,
            y: tdiv(a@.y * b@.y, SCALE as int) as i64,
            z: tdiv(a@.z * b@.z, SCALE as int) as i64,
        }
    }

    /// Componentwise product scaled down by `SCALE` (fixed-point modulate),
    /// used for colour filtering.
    pub fn modulate(&self, o: &Vec3) -> (r: Vec3)
        requires
            self.bounded(COLOR_LIMIT as int),
            o.bounded(COLOR_LIMIT as int),
        ensures
            r@.x == tdiv(self@.x * o@.x, SCALE as int),
            r@.y == tdiv(self@.y * o@.y, SCALE as int),
            r@.z == tdiv(self@.z * o@.z, SCALE as int),
            r == Vec3::modulate_spec(*self, *o),
    {
        proof {
            lemma_abs_mul_bound(self.x as int, o.x as int, COLOR_LIMIT as int);
            lemma_abs_mul_bound(self.y as int, o.y as int, COLOR_LIMIT as int);
            lemma_abs_mul_bound(self.z as int, o.z as int, COLOR_LIMIT as int);
            lemma_tdiv_shrinks((self.x as int) * (o.x as int), SCALE as int);
            lemma_tdiv_shrinks((self.y as int) * (o.y as int), SCALE as int);
            lemma_tdiv_shrinks((self.z as int) * (o.z as int), SCALE as int);
        }
        let x = Math::div_trunc((self.x as i128) * (o.x as i128), SCALE as i128);
        let y = Math::div_trunc((self.y as i128) * (o.y as i128), SCALE as i128);
        let z = Math::div_trunc((self.z as i128) * (o.z as i128), SCALE as i128);
        Vec3 { x: x as i64, y: y as i64, z: z as i64 }
    }

    /// Fixed-point normalisation, as a mathematical function: each
    /// component becomes `component * SCALE / length` (truncated), so
    /// the result has length close to `SCALE` (one world unit); the
    /// zero vector is unchanged.
    pub open spec fn normalize_spec(v: Vec3) -> Vec3 {
        if v@.norm2() == 0 {
            v
        } else {
            let n = sqrt_floor(v@.norm2() as nat) as int;
            Vec3 {
                x: tdiv(v@.x * SCALE, n) as i64,
                y: tdiv(v@.y * SCALE, n) as i64,
                z: tdiv(v@.z * SCALE, n) as i64,
            }
        }
    }

    /// Fixed-point normalisation: exactly `normalize_spec`.
    pub fn normalize(&self) -> (r: Vec3)
        requires
            self.bounded(NORM_LIMIT as int),
        ensures
            r == Vec3::normalize_spec(*self),
            self@.norm2() == 0 ==> r == *self,
            self@.norm2() != 0 ==> {
                let n = sqrt_floor(self@.norm2() as nat) as int;
                r@.x == tdiv(self@.x * SCALE, n) && r@.y == tdiv(self@.y * SCALE, n) && r@.z
                    == tdiv(self@.z * SCALE, n)
            },
            self@.norm2() != 0 ==> r.bounded(2 * SCALE),
    {
        let n = self.length();
        if n == 0 {
            proof {
                lemma_square_nonneg(self@.x);
                lemma_square_nonneg(self@.y);
                lemma_square_nonneg(self@.z);
                assert(self@.norm2() >= 0);
                lemma_sqrt_floor(self@.norm2() as nat);
                let f = sqrt_floor(self@.norm2() as nat);
                assert((f + 1) * (f + 1) == 1) by (nonlinear_arith)
                    requires
                        f == 0,
                ;
                assert(self@.norm2() == 0);
            }
            return *self;
        }
        proof {
            lemma_abs_mul_bound(self.x as int, SCALE as int, NORM_LIMIT as int);
            lemma_abs_mul_bound(self.y as int, SCALE as int, NORM_LIMIT as int);
            lemma_abs_mul_bound(self.z as int, SCALE as int, NORM_LIMIT as int);
            lemma_tdiv_shrinks(self@.x * SCALE, n as int);
            lemma_tdiv_shrinks(self@.y * SCALE, n as int);
            lemma_tdiv_shrinks(self@.z * SCALE, n as int);
        }
        proof {
            lemma_square_nonneg(self@.x);
            lemma_square_nonneg(self@.y);
            lemma_square_nonneg(self@.z);
            crate::math::lemma_sqrt_floor(self@.norm2() as nat);
            lemma_component_le_norm(self@, n as int);
            crate::math::lemma_tdiv_bound(self@.x * SCALE, n as int, 2 * SCALE as int);
            crate::math::lemma_tdiv_bound(self@.y * SCALE, n as int, 2 * SCALE as int);
            crate::math::lemma_tdiv_bound(self@.z * SCALE, n as int, 2 * SCALE as int);
        }
        let x = Math::div_trunc((self.x as i128) * (SCALE as i128), n as i128);
        let y = Math::div_trunc((self.y as i128) * (SCALE as i128), n as i128);
        let z = Math::div_trunc((self.z as i128) * (SCALE as i128), n as i128);
        Vec3 { x: x as i64, y: y as i64, z: z as i64 }
    }
}

/// Each component of a vector is bounded by any value whose square
/// reaches the squared norm.
proof fn lemma_component_le_norm(v: V3, n: int)
    requires
        n >= 1,
        v.norm2() < (n + 1) * (n + 1),
    ensures
        abs(v.x * SCALE) <= 2 * SCALE * n,
        abs(v.y * SCALE) <= 2 * SCALE * n,
        abs(v.z * SCALE) <= 2 * SCALE * n,
{
    lemma_square_nonneg(v.x);
    lemma_square_nonneg(v.y);
    lemma_square_nonneg(v.z);
    assert(abs(v.x) <= n && abs(v.y) <= n && abs(v.z) <= n) by (nonlinear_arith)
        requires
            n >= 1,
            v.x * v.x + v.y * v.y + v.z * v.z < (n + 1) * (n + 1),
            v.x * v.x >= 0,
            v.y * v.y >= 0,
            v.z * v.z >= 0,
    ;
    assert(abs(v.x * SCALE) <= 2 * SCALE * n && abs(v.y * SCALE) <= 2 * SCALE * n && abs(v.z
        * SCALE) <= 2 * SCALE * n) by (nonlinear_arith)
        requires
            abs(v.x) <= n,
            abs(v.y) <= n,
            abs(v.z) <= n,
            SCALE == 1000,
            n >= 1,
    ;
}

/// `|a| <= m` and `|b| <= m` bound the product by `m * m`.
pub proof fn lemma_abs_mul_bound(a: int, b: int, m: int) by (nonlinear_arith)
    requires
        abs(a) <= m,
        abs(b) <= m,
    ensures
        abs(a * b) <= m * m,
{
}

pub proof fn lemma_square_nonneg(a: int) by (nonlinear_arith)
    ensures
        a * a >= 0,
{
}

/// The square-root floor is monotone.
pub proof fn lemma_sqrt_mono(a: nat, b: nat)
    requires
        a <= b,
    ensures
        sqrt_floor(a) <= sqrt_floor(b),
{
    crate::math::lemma_sqrt_floor(a);
    crate::math::lemma_sqrt_floor(b);
    let sa = sqrt_floor(a);
    let sb = sqrt_floor(b);
    if sa > sb {
        assert(false) by (nonlinear_arith)
            requires
                sb < sa,
                sa * sa <= a,
                b < (sb + 1) * (sb + 1),
                a <= b,
        ;
    }
}

/// Truncating division by a positive divisor does not grow the magnitude.
pub proof fn lemma_tdiv_shrinks(a: int, d: int)
    requires
        d >= 1,
    ensures
        abs(tdiv(a, d)) <= abs(a),
{
    if a >= 0 {
        assert(a / d <= a) by (nonlinear_arith)
            requires
                d >= 1,
                a >= 0,
        ;
        assert(a / d >= 0) by (nonlinear_arith)
            requires
                d >= 1,
                a >= 0,
        ;
    } else {
        assert((-a) / d <= -a) by (nonlinear_arith)
            requires
                d >= 1,
                a < 0,
        ;
        assert((-a) / d >= 0) by (nonlinear_arith)
            requires
                d >= 1,
                a < 0,
        ;
    }
}

} // verus!
