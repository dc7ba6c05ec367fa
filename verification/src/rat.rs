use vstd::prelude::*;

use crate::math::abs;

verus! {

/// Magnitude cap on numerators of exact ray parameters.  The
/// Möller–Trumbore `t` numerator of a triangle whose coordinates are
/// bounded by `math::COORD_LIMIT` stays below this.
pub const RAT_NUM_MAX: i128 = 11_000_000_000_000_000_000;

/// Cap on (positive) denominators; the Möller–Trumbore determinant of a
/// bounded triangle stays below this.
pub const RAT_DEN_MAX: i128 = 6_000_000_000_000_000_000;

/// An exact rational ray parameter `num / den`, `den >= 1`.  Cross
/// multiplication of two well-formed values stays within `i128`, so the
/// order on parameters is decided exactly.
#[derive(Clone, Copy, Debug)]
pub struct Rat {
    pub num: i128,
    pub den: i128,
}

/// Exact order on rationals given as (numerator, positive denominator).
pub open spec fn frac_le(n1: int, d1: int, n2: int, d2: int) -> bool {
    n1 * d2 <= n2 * d1
}

impl Rat {
    pub open spec fn wf(self) -> bool {
        1 <= self.den <= RAT_DEN_MAX && abs(self.num as int) <= RAT_NUM_MAX as int
    }

    /// `self <= o` as mathematical rationals.
    pub open spec fn le_spec(self, o: Rat) -> bool {
        frac_le(self.num as int, self.den as int, o.num as int, o.den as int)
    }

    pub fn new(num: i128, den: i128) -> (r: Rat)
        requires
            1 <= den <= RAT_DEN_MAX,
            abs(num as int) <= RAT_NUM_MAX as int,
        ensures
            r.num == num,
            r.den == den,
            r.wf(),
    {
        Rat { num, den }
    }

    pub fn zero() -> (r: Rat)
        ensures
            r.num == 0,
            r.den == 1,
            r.wf(),
    {
        Rat { num: 0, den: 1 }
    }

    pub fn le(&self, o: &Rat) -> (r: bool)
        requires
            self.wf(),
            o.wf(),
        ensures
            r == self.le_spec(*o),
    {
        proof {
            lemma_rat_products_fit(self.num as int, self.den as int, o.num as int, o.den as int);
        }
        self.num * o.den <= o.num * self.den
    }

    pub fn lt(&self, o: &Rat) -> (r: bool)
        requires
            self.wf(),
            o.wf(),
        ensures
            r == !o.le_spec(*self),
    {
        !o.le(self)
    }
}

/// Products of well-formed numerators and denominators stay within `i128`.
proof fn lemma_rat_products_fit(n1: int, d1: int, n2: int, d2: int) by (nonlinear_arith)
    requires
        abs(n1) <= RAT_NUM_MAX as int,
        abs(n2) <= RAT_NUM_MAX as int,
        1 <= d1 <= RAT_DEN_MAX as int,
        1 <= d2 <= RAT_DEN_MAX as int,
    ensures
        abs(n1 * d2) <= RAT_NUM_MAX as int * RAT_DEN_MAX as int,
        abs(n2 * d1) <= RAT_NUM_MAX as int * RAT_DEN_MAX as int,
{
}

/// The exact rational order is total.
pub proof fn lemma_frac_le_total(n1: int, d1: int, n2: int, d2: int)
    requires
        d1 >= 1,
        d2 >= 1,
    ensures
        frac_le(n1, d1, n2, d2) || frac_le(n2, d2, n1, d1),
{
}

/// The exact rational order is transitive.
pub proof fn lemma_frac_le_trans(n1: int, d1: int, n2: int, d2: int, n3: int, d3: int)
    by (nonlinear_arith)
    requires
        d1 >= 1,
        d2 >= 1,
        d3 >= 1,
        frac_le(n1, d1, n2, d2),
        frac_le(n2, d2, n3, d3),
    ensures
        frac_le(n1, d1, n3, d3),
{
    assert(n1 * d2 * d3 <= n2 * d1 * d3);
    assert(n2 * d3 * d1 <= n3 * d2 * d1);
}

/// Bridging a shared rational `t = tn/td` from below and above.
pub proof fn lemma_frac_le_through(n1: int, d1: int, tn: int, td: int, n2: int, d2: int)
    by (nonlinear_arith)
    requires
        d1 >= 1,
        d2 >= 1,
        td >= 1,
        n1 * td <= tn * d1,
        tn * d2 <= n2 * td,
    ensures
        frac_le(n1, d1, n2, d2),
{
    assert(n1 * td * d2 <= tn * d1 * d2);
    assert(tn * d2 * d1 <= n2 * td * d1);
}

} // verus!
