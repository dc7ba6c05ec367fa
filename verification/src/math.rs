use vstd::prelude::*;

verus! {

/// Fixed-point scale: world coordinates, distances and radiance values are
/// integer multiples of `1/SCALE` of a world unit.
pub const SCALE: i64 = 1000;

/// Largest coordinate magnitude (in `1/SCALE` units) accepted by the mesh
/// pipeline; keeps every intermediate product of the exact ray/triangle
/// predicates within `i128`.
pub const COORD_LIMIT: i64 = 600_000;

/// Negated coordinate cap, for the corners of the empty box.
pub const COORD_LIMIT_NEG: i64 = -600_000;

/// Truncating (round toward zero) division, as the specification of the
/// fixed-point divisions performed in executable code.
pub open spec fn tdiv(a: int, d: int) -> int
    recommends
        d > 0,
{
    if a >= 0 {
        a / d
    } else {
        -((-a) / d)
    }
}

/// Absolute value on mathematical integers.
pub open spec fn abs(a: int) -> int {
    if a >= 0 {
        a
    } else {
        -a
    }
}

/// Floor of the square root, as a mathematical function.
pub open spec fn sqrt_floor(n: nat) -> nat
    decreases n,
{
    if n == 0 {
        0
    } else {
        let r = 2 * sqrt_floor(n / 4);
        if (r + 1) * (r + 1) <= n {
            r + 1
        } else {
            r
        }
    }
}

/// `sqrt_floor(n)` is the floor of the real square root: its square is at
/// most `n` and the next square is beyond `n`.
pub proof fn lemma_sqrt_floor(n: nat)
    ensures
        sqrt_floor(n) * sqrt_floor(n) <= n,
        n < (sqrt_floor(n) + 1) * (sqrt_floor(n) + 1),
    decreases n,
{
    if n == 0 {
        assert(sqrt_floor(n) == 0);
        assert((0 + 1) * (0 + 1) == 1) by (nonlinear_arith);
    } else {
        lemma_sqrt_floor(n / 4);
        let s = sqrt_floor(n / 4);
        let q = n / 4;
        let r = 2 * s;
        assert(4 * q <= n && n <= 4 * q + 3);
        assert(r * r <= n) by (nonlinear_arith)
            requires
                s * s <= q,
                4 * q <= n,
                r == 2 * s,
        ;
        assert(n < (r + 2) * (r + 2)) by (nonlinear_arith)
            requires
                q < (s + 1) * (s + 1),
                n <= 4 * q + 3,
                r == 2 * s,
        ;
        if (r + 1) * (r + 1) <= n {
            assert(sqrt_floor(n) == r + 1);
            let f = sqrt_floor(n);
            assert(f * f <= n && n < (f + 1) * (f + 1)) by (nonlinear_arith)
                requires
                    f == r + 1,
                    (r + 1) * (r + 1) <= n,
                    n < (r + 2) * (r + 2),
            ;
        } else {
            assert(sqrt_floor(n) == r);
            let f = sqrt_floor(n);
            assert(f * f <= n && n < (f + 1) * (f + 1)) by (nonlinear_arith)
                requires
                    f == r,
                    r * r <= n,
                    !((r + 1) * (r + 1) <= n),
            ;
        }
    }
}

/// Any value squeezed between two consecutive squares is the square root
/// floor of everything in between.
pub proof fn lemma_sqrt_floor_unique(n: nat, r: nat)
    requires
        r * r <= n,
        n < (r + 1) * (r + 1),
    ensures
        r == sqrt_floor(n),
{
    lemma_sqrt_floor(n);
    let s = sqrt_floor(n);
    if r < s {
        assert(false) by (nonlinear_arith)
            requires
                r < s,
                s * s <= n,
                n < (r + 1) * (r + 1),
        ;
    }
    if s < r {
        assert(false) by (nonlinear_arith)
            requires
                s < r,
                r * r <= n,
                n < (s + 1) * (s + 1),
        ;
    }
}

/// A bound on the dividend scaled by the divisor bounds the truncated
/// quotient.
pub proof fn lemma_tdiv_bound(a: int, d: int, m: int) by (nonlinear_arith)
    requires
        d >= 1,
        m >= 0,
        abs(a) <= m * d,
    ensures
        abs(tdiv(a, d)) <= m,
{
}

/// Utility namespace for the exact fixed-point arithmetic the renderers
/// are built on.
pub struct Math;

impl Math {
    /// Binary-search integer square root: the unique `r` with
    /// `r * r <= n < (r + 1) * (r + 1)`.
    pub fn isqrt(n: u128) -> (r: u128)
        requires
            n < 0x4000_0000_0000_0000_0000_0000_0000_0000u128,
        ensures
            r == sqrt_floor(n as nat),
            r * r <= n < (r + 1) * (r + 1),
    {
        let mut lo: u128 = 0;
        let mut hi: u128 = 0x8000_0000_0000_0000u128;
        assert(hi * hi == 0x4000_0000_0000_0000_0000_0000_0000_0000u128);
        while hi - lo > 1
            invariant
                lo < hi,
                hi <= 0x8000_0000_0000_0000u128,
                lo * lo <= n,
                n < hi * hi,
            decreases hi - lo,
        {
            let mid = lo + (hi - lo) / 2;
            assert(lo < mid < hi);
            proof {
                assert(mid * mid <= 0x4000_0000_0000_0000_0000_0000_0000_0000u128)
                    by (nonlinear_arith)
                    requires
                        mid <= 0x8000_0000_0000_0000u128,
                ;
            }
            if mid * mid <= n {
                lo = mid;
            } else {
                hi = mid;
            }
        }
        proof {
            lemma_sqrt_floor_unique(n as nat, lo as nat);
        }
        lo
    }

    /// Truncating fixed-point division of a wide intermediate by a positive
    /// divisor.
    pub fn div_trunc(a: i128, d: i128) -> (q: i128)
        requires
            d > 0,
            -0x7fff_ffff_ffff_ffff_ffff_ffff_ffff_ffffi128 <= a,
        ensures
            q == tdiv(a as int, d as int),
    {
        if a >= 0 {
            let q = (a as u128) / (d as u128);
            q as i128
        } else {
            let q = ((-a) as u128) / (d as u128);
            -(q as i128)
        }
    }

    /// Clamp to a closed interval.
    pub fn clamp_i64(v: i64, lo: i64, hi: i64) -> (r: i64)
        requires
            lo <= hi,
        ensures
            r == if v < lo { lo as int } else if v > hi { hi as int } else { v as int },
    {
        if v < lo {
            lo
        } else if v > hi {
            hi
        } else {
            v
        }
    }
}

} // verus!
