use vstd::prelude::*;

use crate::math::{tdiv, Math, SCALE};
use crate::rat::Rat;
use crate::vec3::{Vec3, V3};

verus! {

/// Fixed-point value of pi (thousandths).
pub const PI_MILLI: i64 = 3141;

/// Fixed-point value of two pi (thousandths).
pub const TWO_PI_MILLI: i64 = 6283;

/// A surface material: a tagged sum, not an open hierarchy.  Either an
/// ideal diffuse surface or a microfacet description; both carry an
/// albedo and an emitted radiance in fixed point.
#[derive(Clone, Copy, Debug)]
pub enum Material {
    Lambertian { albedo: Vec3, emission: Vec3 },
    Pbr { albedo: Vec3, emission: Vec3, metallic: i64, roughness: i64, ao: i64 },
}

impl Material {
    pub open spec fn albedo_spec(self) -> Vec3 {
        match self {
            Material::Lambertian { albedo, .. } => albedo,
            Material::Pbr { albedo, .. } => albedo,
        }
    }

    pub open spec fn emission_spec(self) -> Vec3 {
        match self {
            Material::Lambertian { emission, .. } => emission,
            Material::Pbr { emission, .. } => emission,
        }
    }

    pub open spec fn wf(self) -> bool {
        &&& self.albedo_spec().bounded(SCALE as int)
        &&& self.emission_spec().bounded(1_000_000_000)
        &&& self.emission_spec()@.x >= 0
        &&& self.emission_spec()@.y >= 0
        &&& self.emission_spec()@.z >= 0
    }

    pub fn get_albedo(&self) -> (r: Vec3)
        ensures
            r == self.albedo_spec(),
    {
        match self {
            Material::Lambertian { albedo, .. } => *albedo,
            Material::Pbr { albedo, .. } => *albedo,
        }
    }

    pub fn get_emission(&self) -> (r: Vec3)
        ensures
            r == self.emission_spec(),
    {
        match self {
            Material::Lambertian { emission, .. } => *emission,
            Material::Pbr { emission, .. } => *emission,
        }
    }

    /// Whether the material emits: exactly, the emission is not the zero
    /// vector.
    pub fn has_emission(&self) -> (r: bool)
        ensures
            r == (self.emission_spec()@ != (V3 { x: 0int, y: 0int, z: 0int })),
    {
        let e = self.get_emission();
        e.x != 0 || e.y != 0 || e.z != 0
    }

    /// Diffuse reflectance: `albedo / pi` when the outgoing direction is
    /// above the surface, zero otherwise, on the fixed-point grid.
    pub fn eval(&self, _ws: &Vec3, wo: &Vec3, normal: &Vec3) -> (f: Vec3)
        requires
            self.wf(),
            wo.bounded(crate::vec3::DOT_LIMIT as int),
            normal.bounded(crate::vec3::DOT_LIMIT as int),
        ensures
            normal@.dot(wo@) > 0 ==> f@.x == tdiv(self.albedo_spec()@.x * SCALE, PI_MILLI as int)
                && f@.y == tdiv(self.albedo_spec()@.y * SCALE, PI_MILLI as int) && f@.z == tdiv(
                self.albedo_spec()@.z * SCALE, PI_MILLI as int),
            normal@.dot(wo@) <= 0 ==> f@ == (V3 { x: 0int, y: 0int, z: 0int }),
            f.bounded(SCALE as int),
    {
        let cosalpha = normal.dot(wo);
        if cosalpha > 0 {
            let a = self.get_albedo();
            proof {
                crate::math::lemma_tdiv_bound(a@.x * SCALE, PI_MILLI as int, SCALE as int);
                crate::math::lemma_tdiv_bound(a@.y * SCALE, PI_MILLI as int, SCALE as int);
                crate::math::lemma_tdiv_bound(a@.z * SCALE, PI_MILLI as int, SCALE as int);
            }
            let x = Math::div_trunc((a.x as i128) * (SCALE as i128), PI_MILLI as i128);
            let y = Math::div_trunc((a.y as i128) * (SCALE as i128), PI_MILLI as i128);
            let z = Math::div_trunc((a.z as i128) * (SCALE as i128), PI_MILLI as i128);
            Vec3 { x: x as i64, y: y as i64, z: z as i64 }
        } else {
            Vec3 { x: 0, y: 0, z: 0 }
        }
    }

    /// Density of the hemisphere sampler: exactly `1 / (2 pi)` above the
    /// surface, zero below.
    pub fn pdf(&self, _wi: &Vec3, wo: &Vec3, normal: &Vec3) -> (p: Rat)
        requires
            wo.bounded(crate::vec3::DOT_LIMIT as int),
            normal.bounded(crate::vec3::DOT_LIMIT as int),
        ensures
            normal@.dot(wo@) > 0 ==> p.num == SCALE && p.den == TWO_PI_MILLI,
            normal@.dot(wo@) <= 0 ==> p.num == 0 && p.den == 1,
            p.wf(),
    {
        let c = wo.dot(normal);
        if c > 0 {
            Rat::new(SCALE as i128, TWO_PI_MILLI as i128)
        } else {
            Rat::new(0, 1)
        }
    }

    /// Uniform hemisphere sample about the normal, drawn by rejection
    /// from the cube: every returned direction is a nonzero point of the
    /// unit ball lying in the normal's closed hemisphere.  The direction
    /// itself is random; nothing more is promised of it.
    pub fn sample(&self, _wi: &Vec3, normal: &Vec3) -> (d: Vec3)
        requires
            normal.bounded(crate::vec3::NORM_LIMIT as int),
        ensures
            d.bounded(SCALE as int),
            1 <= d@.norm2() <= 1_000_000,
            d@.dot(normal@) >= 0,
    {
        let mut tries: u32 = 0;
        while tries < 64
            invariant
                normal.bounded(crate::vec3::NORM_LIMIT as int),
            decreases 64 - tries,
        {
            let x = crate::random::sample_signed_unit();
            let y = crate::random::sample_signed_unit();
            let z = crate::random::sample_signed_unit();
            let v = Vec3 { x, y, z };
            let n2 = v.norm2();
            if n2 > 0 && n2 <= 1_000_000i128 {
                if v.dot(normal) >= 0 {
                    return v;
                }
                let flipped = v.neg();
                proof {
                    lemma_neg_flips(v@, normal@);
                }
                return flipped;
            }
            tries = tries + 1;
        }
        let fallback = if normal.z >= 0 {
            Vec3 { x: 0, y: 0, z: SCALE }
        } else {
            Vec3 { x: 0, y: 0, z: -SCALE }
        };
        proof {
            lemma_fallback_facts(normal@);
        }
        fallback
    }
}

/// Negating a vector negates its dot products and keeps its norm.
proof fn lemma_neg_flips(v: V3, n: V3)
    ensures
        v.neg().dot(n) == -v.dot(n),
        v.neg().norm2() == v.norm2(),
{
    vstd::arithmetic::mul::lemma_mul_unary_negation(v.x, n.x);
    vstd::arithmetic::mul::lemma_mul_unary_negation(v.y, n.y);
    vstd::arithmetic::mul::lemma_mul_unary_negation(v.z, n.z);
    vstd::arithmetic::mul::lemma_mul_unary_negation(v.x, v.x);
    vstd::arithmetic::mul::lemma_mul_unary_negation(v.y, v.y);
    vstd::arithmetic::mul::lemma_mul_unary_negation(v.z, v.z);
    vstd::arithmetic::mul::lemma_mul_unary_negation(v.x, -v.x);
    vstd::arithmetic::mul::lemma_mul_unary_negation(v.y, -v.y);
    vstd::arithmetic::mul::lemma_mul_unary_negation(v.z, -v.z);
    vstd::arithmetic::mul::lemma_mul_is_commutative(v.x, -v.x);
    vstd::arithmetic::mul::lemma_mul_is_commutative(v.y, -v.y);
    vstd::arithmetic::mul::lemma_mul_is_commutative(v.z, -v.z);
}

/// The axis fallback direction points into the normal's hemisphere and
/// lies on the unit sphere.
proof fn lemma_fallback_facts(n: V3)
    ensures
        n.z >= 0 ==> (V3 { x: 0int, y: 0int, z: SCALE as int }).dot(n) >= 0,
        n.z < 0 ==> (V3 { x: 0int, y: 0int, z: -(SCALE as int) }).dot(n) >= 0,
        (V3 { x: 0int, y: 0int, z: SCALE as int }).norm2() == 1_000_000,
        (V3 { x: 0int, y: 0int, z: -(SCALE as int) }).norm2() == 1_000_000,
{
    vstd::arithmetic::mul::lemma_mul_by_zero_is_zero(n.x);
    vstd::arithmetic::mul::lemma_mul_by_zero_is_zero(n.y);
    assert((SCALE as int) * (SCALE as int) == 1_000_000) by (nonlinear_arith)
        requires
            SCALE == 1000,
    ;
    assert((-(SCALE as int)) * (-(SCALE as int)) == 1_000_000) by (nonlinear_arith)
        requires
            SCALE == 1000,
    ;
    if n.z >= 0 {
        assert((SCALE as int) * n.z >= 0) by (nonlinear_arith)
            requires
                n.z >= 0,
        ;
    } else {
        assert((-(SCALE as int)) * n.z >= 0) by (nonlinear_arith)
            requires
                n.z < 0,
        ;
    }
}

} // verus!
