use vstd::prelude::*;

use crate::material::PI_MILLI;
use crate::math::{tdiv, Math, SCALE};
use crate::sdf::{imax, PBRMaterial};
use crate::scene::iclamp;
use crate::vec3::Vec3;

verus! {

/// Trowbridge–Reitz normal distribution on the fixed-point grid:
/// `a = roughness^2`, `D = a^2 / (pi ((n.h)^2 (a^2 - 1) + 1)^2)`, each
/// product truncated to thousandths, the denominator guarded at one
/// grid unit.
pub open spec fn ggx_spec(ndh: int, r: int) -> int {
    let a = tdiv(r * r, SCALE as int);
    let a2 = tdiv(a * a, SCALE as int);
    let nh2 = tdiv(ndh * ndh, SCALE as int);
    let t = SCALE + tdiv(nh2 * (a2 - SCALE), SCALE as int);
    let d2 = tdiv(t * t, SCALE as int);
    let dpi = imax(tdiv(PI_MILLI * d2, SCALE as int), 1);
    tdiv(a2 * SCALE, dpi)
}

/// Schlick-GGX masking term with `k = (r + 1)^2 / 8`, clamped into the
/// unit range.
pub open spec fn schlick_ggx_spec(ndv: int, r: int) -> int {
    let k = tdiv((r + SCALE) * (r + SCALE), 8 * SCALE as int);
    let denom = imax(tdiv(ndv * (SCALE - k), SCALE as int) + k, 1);
    let g = tdiv(ndv * SCALE, denom);
    if g > SCALE {
        SCALE as int
    } else {
        g
    }
}

/// Smith's joint masking term.
pub open spec fn smith_spec(ndv: int, ndl: int, r: int) -> int {
    tdiv(schlick_ggx_spec(ndl, r) * schlick_ggx_spec(ndv, r), SCALE as int)
}

/// Schlick's Fresnel approximation: `f0 + (1 - f0)(1 - cos)^5`.
pub open spec fn fresnel_spec(cos: int, f0: int) -> int {
    let q = SCALE - cos;
    let q2 = tdiv(q * q, SCALE as int);
    let q4 = tdiv(q2 * q2, SCALE as int);
    let q5 = tdiv(q4 * q, SCALE as int);
    f0 + tdiv((SCALE - f0) * q5, SCALE as int)
}

fn unit_mul(x: i64, y: i64) -> (r: i64)
    requires
        0 <= x <= 1000,
        0 <= y <= 1000,
    ensures
        r == tdiv(x * y, SCALE as int),
        0 <= r <= 1000,
{
    proof {
        crate::vec3::lemma_abs_mul_bound(x as int, y as int, 1000);
        crate::math::lemma_tdiv_bound(x * y, SCALE as int, 1000);
        assert(tdiv(x * y, SCALE as int) >= 0) by (nonlinear_arith)
            requires
                0 <= x <= 1000,
                0 <= y <= 1000,
                SCALE == 1000,
        ;
    }
    Math::div_trunc((x as i128) * (y as i128), 1000) as i64
}

fn normal_distribution_ggx(ndh: i64, roughness: i64) -> (d: i64)
    requires
        0 <= ndh <= 1000,
        0 <= roughness <= 1000,
    ensures
        d == ggx_spec(ndh as int, roughness as int),
        0 <= d <= 1_000_000,
{
    let a = unit_mul(roughness, roughness);
    let a2 = unit_mul(a, a);
    let nh2 = unit_mul(ndh, ndh);
    proof {
        crate::vec3::lemma_abs_mul_bound(nh2 as int, a2 - SCALE, 1000);
        crate::math::lemma_tdiv_bound(nh2 * (a2 - SCALE), SCALE as int, 1000);
    }
    proof {
        assert(nh2 * (a2 - SCALE) <= 0) by (nonlinear_arith)
            requires
                0 <= nh2,
                a2 <= SCALE,
                SCALE == 1000,
        ;
        assert(tdiv(nh2 * (a2 - SCALE), SCALE as int) <= 0);
    }
    let t = SCALE + Math::div_trunc((nh2 as i128) * ((a2 - SCALE) as i128), 1000) as i64;
    let d2 = unit_mul(t, t);
    proof {
        crate::vec3::lemma_abs_mul_bound(PI_MILLI as int, d2 as int, 3_141);
        crate::math::lemma_tdiv_bound(PI_MILLI * d2, SCALE as int, 9_867);
        crate::vec3::lemma_abs_mul_bound(a2 as int, SCALE as int, 1000);
        crate::math::lemma_tdiv_bound(a2 * SCALE, 1, 1_000_000);
    }
    let dpi = Math::div_trunc((PI_MILLI as i128) * (d2 as i128), 1000) as i64;
    let dpi = if dpi >= 1 {
        dpi
    } else {
        1
    };
    let d = Math::div_trunc((a2 as i128) * 1000, dpi as i128) as i64;
    proof {
        crate::math::lemma_tdiv_bound(a2 * SCALE, dpi as int, 1_000_000);
        assert(tdiv(a2 * SCALE, dpi as int) >= 0) by (nonlinear_arith)
            requires
                0 <= a2 <= 1000,
                dpi >= 1,
                SCALE == 1000,
        ;
    }
    d
}

fn geometry_schlick_ggx(ndv: i64, roughness: i64) -> (g: i64)
    requires
        0 <= ndv <= 1000,
        0 <= roughness <= 1000,
    ensures
        g == schlick_ggx_spec(ndv as int, roughness as int),
        0 <= g <= 1000,
{
    proof {
        crate::vec3::lemma_abs_mul_bound((roughness + SCALE) as int, (roughness + SCALE) as int,
            2_000);
        crate::math::lemma_tdiv_bound((roughness + SCALE) * (roughness + SCALE),
            8 * SCALE as int, 500);
        assert(tdiv((roughness + SCALE) * (roughness + SCALE), 8 * SCALE as int) >= 0)
            by (nonlinear_arith)
            requires
                0 <= roughness <= 1000,
                SCALE == 1000,
        ;
    }
    let k = Math::div_trunc(((roughness + SCALE) as i128) * ((roughness + SCALE) as i128), 8000)
        as i64;
    let num = unit_mul(ndv, SCALE - k);
    let denom = if num + k >= 1 {
        num + k
    } else {
        1
    };
    proof {
        crate::vec3::lemma_abs_mul_bound(ndv as int, SCALE as int, 1000);
        crate::math::lemma_tdiv_bound(ndv * SCALE, denom as int, 1_000_000);
        assert(tdiv(ndv * SCALE, denom as int) >= 0) by (nonlinear_arith)
            requires
                0 <= ndv <= 1000,
                denom >= 1,
                SCALE == 1000,
        ;
    }
    let g = Math::div_trunc((ndv as i128) * 1000, denom as i128) as i64;
    if g > 1000 {
        1000
    } else {
        g
    }
}

fn fresnel_schlick(cos: i64, f0: i64) -> (f: i64)
    requires
        0 <= cos <= 1000,
        0 <= f0 <= 1000,
    ensures
        f == fresnel_spec(cos as int, f0 as int),
        0 <= f <= 2000,
{
    let q = SCALE - cos;
    let q2 = unit_mul(q, q);
    let q4 = unit_mul(q2, q2);
    let q5 = unit_mul(q4, q);
    let tail = unit_mul(SCALE - f0, q5);
    f0 + tail
}

/// Clamp into the closed unit range of the grid.
pub open spec fn unit_clamp(v: int) -> int {
    if v < 0 {
        0
    } else if v > 1000 {
        1000
    } else {
        v
    }
}

/// One colour channel of the Cook–Torrance sum, exactly as computed on
/// the grid: ambient `albedo * amb` plus the clamped
/// `(diffuse + specular) * radiance * (n.l)` product chain, where
/// `diffuse = albedo * (1 - F)(1 - metallic) / pi` and
/// `specular = F * D * G / max(4 (n.v)(n.l), 1)`.
pub open spec fn pbr_axis_spec(alb: int, li_raw: int, amb_scale: int, ndf: int, g: int,
    hv: int, ndv: int, ndl: int, metalness: int) -> int {
    let ambient = tdiv(alb * amb_scale, SCALE as int);
    let f0 = unit_clamp(40 + tdiv((alb - 40) * metalness, SCALE as int));
    let f = unit_clamp(fresnel_spec(hv, f0));
    let kd = tdiv((SCALE - f) * (SCALE - metalness), SCALE as int);
    let fd = tdiv(f * ndf, SCALE as int);
    let num = tdiv(fd * g, SCALE as int);
    let nvnl = tdiv(ndv * ndl, SCALE as int);
    let denom = imax(4 * nvnl, 1);
    let specular = iclamp(tdiv(num * SCALE, denom));
    let diffuse = tdiv(alb * kd, PI_MILLI as int);
    let ds = iclamp(diffuse + specular);
    let li = iclamp(li_raw);
    let dsl = tdiv(ds * li, SCALE as int);
    let lit = tdiv(dsl * ndl, SCALE as int);
    let lit = if lit < 0 {
        0int
    } else if lit > 1_999_999_000 {
        1_999_999_000int
    } else {
        lit
    };
    ambient + lit
}

/// The four grid cosines of the shading frame: `n.h`, `n.v`, `n.l` and
/// `h.v`, each clamped to the unit range, with the half vector
/// normalised from `view + light`; all zero when the half vector
/// degenerates out of the unit range.
pub open spec fn pbr_cosines(view: Vec3, normal: Vec3, light: Vec3) -> (int, int, int, int) {
    let half = Vec3::normalize_spec(Vec3 {
        x: (view@.x + light@.x) as i64,
        y: (view@.y + light@.y) as i64,
        z: (view@.z + light@.z) as i64,
    });
    if half.bounded(2_000) {
        (
            unit_clamp(tdiv(normal@.dot(half@), SCALE as int)),
            unit_clamp(tdiv(normal@.dot(view@), SCALE as int)),
            unit_clamp(tdiv(normal@.dot(light@), SCALE as int)),
            unit_clamp(tdiv(half@.dot(view@), SCALE as int)),
        )
    } else {
        (0int, 0int, 0int, 0int)
    }
}

/// Cook–Torrance direct lighting of one fragment under one light, on
/// the fixed-point grid: ambient plus `(diffuse + specular)` scaled by
/// the incident radiance and the incidence cosine, clamped into the
/// radiance range.  All cosines arrive as unit fractions; the ground
/// override replaces the material's albedo before any term is formed.
pub fn pbr_lighting(
    material: &PBRMaterial,
    view: &Vec3,
    normal: &Vec3,
    light: &Vec3,
    light_intensity: &Vec3,
    replace_albedo: Option<Vec3>,
) -> (c: Vec3)
    requires
        material.wf(),
        view.bounded(2_000),
        normal.bounded(2_000),
        light.bounded(2_000),
        light_intensity.bounded(2_000_000_000),
        match replace_albedo {
            Some(a) => a.bounded(SCALE as int),
            None => true,
        },
    ensures
        c.bounded(2_000_000_000),
        c@.x >= 0 && c@.y >= 0 && c@.z >= 0,
        ({
            let cos = pbr_cosines(*view, *normal, *light);
            let raw = match replace_albedo {
                Some(a) => a,
                None => material.kd,
            };
            let amb = tdiv(30 * (SCALE - material.ao), SCALE as int);
            let r = material.roughness as int;
            &&& c@.x == pbr_axis_spec(unit_clamp(iclamp(raw@.x)), light_intensity@.x, amb,
                ggx_spec(cos.0, r), smith_spec(cos.1, cos.2, r), cos.3, cos.1, cos.2,
                material.metalness as int)
            &&& c@.y == pbr_axis_spec(unit_clamp(iclamp(raw@.y)), light_intensity@.y, amb,
                ggx_spec(cos.0, r), smith_spec(cos.1, cos.2, r), cos.3, cos.1, cos.2,
                material.metalness as int)
            &&& c@.z == pbr_axis_spec(unit_clamp(iclamp(raw@.z)), light_intensity@.z, amb,
                ggx_spec(cos.0, r), smith_spec(cos.1, cos.2, r), cos.3, cos.1, cos.2,
                material.metalness as int)
        }),
{
    let albedo = match replace_albedo {
        Some(a) => a,
        None => material.kd,
    };
    let albedo = crate::scene::clamp_color(albedo);
    let half = view.add(light).normalize();
    let (ndh, ndv, ndl, hv) = if half.bounded_exec(2_000) {
        proof {
            crate::triangle::lemma_dot_bound(normal@, half@, 2_000, 2_000);
            crate::triangle::lemma_dot_bound(normal@, view@, 2_000, 2_000);
            crate::triangle::lemma_dot_bound(normal@, light@, 2_000, 2_000);
            crate::triangle::lemma_dot_bound(half@, view@, 2_000, 2_000);
            crate::vec3::lemma_tdiv_shrinks(normal@.dot(half@), 1000);
            crate::vec3::lemma_tdiv_shrinks(normal@.dot(view@), 1000);
            crate::vec3::lemma_tdiv_shrinks(normal@.dot(light@), 1000);
            crate::vec3::lemma_tdiv_shrinks(half@.dot(view@), 1000);
        }
        (
            Math::clamp_i64(Math::div_trunc(normal.dot(&half), 1000) as i64, 0, 1000),
            Math::clamp_i64(Math::div_trunc(normal.dot(view), 1000) as i64, 0, 1000),
            Math::clamp_i64(Math::div_trunc(normal.dot(light), 1000) as i64, 0, 1000),
            Math::clamp_i64(Math::div_trunc(half.dot(view), 1000) as i64, 0, 1000),
        )
    } else {
        (0, 0, 0, 0)
    };

    // ambient = 0.03 * albedo * (1 - ao)
    let amb_scale = unit_mul(30, SCALE - material.ao);

    let ndf = normal_distribution_ggx(ndh, material.roughness);
    let g1 = geometry_schlick_ggx(ndl, material.roughness);
    let g2 = geometry_schlick_ggx(ndv, material.roughness);
    let g = unit_mul(g1, g2);

    let x = pbr_axis(Math::clamp_i64(albedo.x, 0, 1000), light_intensity.x, amb_scale, ndf, g,
        hv, ndv, ndl, material.metalness);
    let y = pbr_axis(Math::clamp_i64(albedo.y, 0, 1000), light_intensity.y, amb_scale, ndf, g,
        hv, ndv, ndl, material.metalness);
    let z = pbr_axis(Math::clamp_i64(albedo.z, 0, 1000), light_intensity.z, amb_scale, ndf, g,
        hv, ndv, ndl, material.metalness);
    Vec3 { x, y, z }
}

/// One colour channel of the Cook–Torrance sum: ambient plus the
/// clamped `(diffuse + specular) * radiance * (n.l)` product chain.
pub fn pbr_axis(
    alb: i64,
    li_raw: i64,
    amb_scale: i64,
    ndf: i64,
    g: i64,
    hv: i64,
    ndv: i64,
    ndl: i64,
    metalness: i64,
) -> (r: i64)
    requires
        0 <= alb <= 1000,
        -2_000_000_000 <= li_raw <= 2_000_000_000,
        0 <= amb_scale <= 1000,
        0 <= ndf <= 1_000_000,
        0 <= g <= 1000,
        0 <= hv <= 1000,
        0 <= ndv <= 1000,
        0 <= ndl <= 1000,
        0 <= metalness <= 1000,
    ensures
        r == pbr_axis_spec(alb as int, li_raw as int, amb_scale as int, ndf as int, g as int,
            hv as int, ndv as int, ndl as int, metalness as int),
        0 <= r <= 2_000_000_000,
{
    let ambient = unit_mul(alb, amb_scale);
    // f0 = lerp(0.04, albedo, metallic)
    proof {
        crate::vec3::lemma_abs_mul_bound((alb - 40) as int, metalness as int, 1000);
        crate::math::lemma_tdiv_bound((alb - 40) * metalness, SCALE as int, 1000);
    }
    let f0 = Math::clamp_i64(
        40 + Math::div_trunc(((alb - 40) as i128) * (metalness as i128), 1000) as i64, 0, 1000);
    let f = Math::clamp_i64(fresnel_schlick(hv, f0), 0, 1000);
    let kd = unit_mul(SCALE - f, SCALE - metalness);
    // specular = F * D * G / (4 (n.v)(n.l) + eps)
    proof {
        crate::vec3::lemma_abs_mul_bound(f as int, ndf as int, 1_000_000);
        crate::math::lemma_tdiv_bound(f * ndf, SCALE as int, 1_000_000_000);
        assert(tdiv(f * ndf, SCALE as int) >= 0) by (nonlinear_arith)
            requires
                0 <= f <= 1000,
                0 <= ndf <= 1_000_000,
                SCALE == 1000,
        ;
    }
    let fd = Math::div_trunc((f as i128) * (ndf as i128), 1000) as i64;
    proof {
        crate::vec3::lemma_abs_mul_bound(fd as int, g as int, 1_000_000_000);
        crate::math::lemma_tdiv_bound(fd * g, SCALE as int, 1_000_000_000_000_000);
        assert(tdiv(fd * g, SCALE as int) >= 0) by (nonlinear_arith)
            requires
                0 <= fd,
                0 <= g,
                SCALE == 1000,
        ;
    }
    let num = Math::div_trunc((fd as i128) * (g as i128), 1000) as i64;
    let nvnl = unit_mul(ndv, ndl);
    let denom = if 4 * nvnl >= 1 {
        4 * nvnl
    } else {
        1
    };
    proof {
        crate::vec3::lemma_abs_mul_bound(num as int, SCALE as int, 1_000_000_000_000_000);
        crate::math::lemma_tdiv_bound(num * SCALE, denom as int, 1_000_000_000_000_000_000);
        assert(tdiv(num * SCALE, denom as int) >= 0) by (nonlinear_arith)
            requires
                0 <= num,
                denom >= 1,
                SCALE == 1000,
        ;
    }
    let spec_raw = Math::div_trunc((num as i128) * 1000, denom as i128) as i64;
    let specular = Math::clamp_i64(spec_raw, 0, 2_000_000_000);
    // diffuse = albedo * kd / pi
    proof {
        crate::vec3::lemma_abs_mul_bound(alb as int, kd as int, 1000);
        crate::math::lemma_tdiv_bound(alb * kd, PI_MILLI as int, 319);
        assert(tdiv(alb * kd, PI_MILLI as int) >= 0) by (nonlinear_arith)
            requires
                0 <= alb <= 1000,
                0 <= kd <= 1000,
                PI_MILLI == 3141,
        ;
    }
    let diffuse = Math::div_trunc((alb as i128) * (kd as i128), PI_MILLI as i128) as i64;
    let ds = Math::clamp_i64(diffuse + specular, 0, 2_000_000_000);
    let li = Math::clamp_i64(li_raw, 0, 2_000_000_000);
    proof {
        crate::vec3::lemma_abs_mul_bound(ds as int, li as int, 2_000_000_000);
        crate::vec3::lemma_tdiv_shrinks(ds * li, SCALE as int);
        crate::math::lemma_tdiv_bound(ds * li, SCALE as int, 4_000_000_000_000_000);
    }
    let dsl = Math::div_trunc((ds as i128) * (li as i128), 1000);
    proof {
        crate::vec3::lemma_abs_mul_bound(tdiv(ds * li, SCALE as int), ndl as int,
            4_000_000_000_000_000);
        crate::vec3::lemma_tdiv_shrinks(tdiv(ds * li, SCALE as int) * ndl, SCALE as int);
    }
    let lit = Math::div_trunc(dsl * (ndl as i128), 1000);
    let lit = if lit < 0 {
        0i128
    } else if lit > 1_999_999_000 {
        1_999_999_000i128
    } else {
        lit
    };
    ambient + lit as i64
}

} // verus!
