use vstd::prelude::*;

use crate::math::{abs, sqrt_floor, tdiv, Math, SCALE};
use crate::vec3::{Vec3, V3};

verus! {

/// Distance under which a march step counts as a surface hit
/// (one fixed-point unit, i.e. `1/SCALE` of a world unit).
pub const MARCH_ACCURACY: i64 = 1;

/// Maximum number of sphere-march steps.
pub const MAX_STEPS: u32 = 300;

/// Magnitude cap on scene geometry and march points, wide enough for the
/// march to run far past the scene.
pub const SDF_LIMIT: i64 = 300_000_000;

#[derive(Clone, Copy, PartialEq, Eq, Structural, Debug)]
pub enum ShapeType {
    Sphere,
    Cube,
    CubeFrame,
    Torus,
    DeathStar,
    Helix,
}

impl ShapeType {
    /// Stable small-integer tag of the shape kind.
    pub fn to_index(&self) -> (r: i32)
        ensures
            r == match self {
                ShapeType::Sphere => 0int,
                ShapeType::Cube => 1int,
                ShapeType::CubeFrame => 2int,
                ShapeType::Torus => 3int,
                ShapeType::DeathStar => 4int,
                ShapeType::Helix => 5int,
            },
    {
        match self {
            ShapeType::Sphere => 0,
            ShapeType::Cube => 1,
            ShapeType::CubeFrame => 2,
            ShapeType::Torus => 3,
            ShapeType::DeathStar => 4,
            ShapeType::Helix => 5,
        }
    }
}

#[derive(Clone, Copy, PartialEq, Eq, Structural, Debug)]
pub enum ShapeOpType {
    Nop,
    Union,
    Subtraction,
    Intersection,
    SmoothUnion,
}

impl ShapeOpType {
    /// Stable small-integer tag of the operator.
    pub fn to_index(&self) -> (r: i32)
        ensures
            r == match self {
                ShapeOpType::Nop => 0int,
                ShapeOpType::Union => 1int,
                ShapeOpType::Subtraction => 2int,
                ShapeOpType::Intersection => 3int,
                ShapeOpType::SmoothUnion => 4int,
            },
    {
        match self {
            ShapeOpType::Nop => 0,
            ShapeOpType::Union => 1,
            ShapeOpType::Subtraction => 2,
            ShapeOpType::Intersection => 3,
            ShapeOpType::SmoothUnion => 4,
        }
    }
}

/// An analytic signed-distance shape with fixed-point parameters.
#[derive(Clone, Copy, Debug)]
pub enum Shape {
    Sphere { center: Vec3, radius: i64 },
    Cube { center: Vec3, most_front_up_right: Vec3 },
    CubeFrame { center: Vec3, bounds: Vec3, thickness: i64 },
    Torus { center: Vec3, outer_radius: i64, inner_radius: i64 },
}

pub open spec fn imin(a: int, b: int) -> int {
    if a <= b {
        a
    } else {
        b
    }
}

pub open spec fn imax(a: int, b: int) -> int {
    if a >= b {
        a
    } else {
        b
    }
}

/// Exact fixed-point distance of a sphere: the rounded-down Euclidean
/// distance to the centre, minus the radius.
pub open spec fn sphere_sdf_spec(c: V3, r: int, p: V3) -> int {
    sqrt_floor(c.sub(p).norm2() as nat) - r
}

/// Exact fixed-point distance of an axis-aligned box.
pub open spec fn cube_sdf_spec(c: V3, mfur: V3, p: V3) -> int {
    let d = V3 {
        x: abs(p.x - c.x) - mfur.x,
        y: abs(p.y - c.y) - mfur.y,
        z: abs(p.z - c.z) - mfur.z,
    };
    let dc = V3 { x: imax(d.x, 0), y: imax(d.y, 0), z: imax(d.z, 0) };
    sqrt_floor(dc.norm2() as nat) + imin(imax(imax(d.x, d.y), d.z), 0)
}

/// One edge-slab term of the box-frame distance.
pub open spec fn frame_term_spec(a: int, b: int, c: int) -> int {
    let m = V3 { x: imax(a, 0), y: imax(b, 0), z: imax(c, 0) };
    sqrt_floor(m.norm2() as nat) + imin(imax(a, imax(b, c)), 0)
}

/// Exact fixed-point distance of a box frame (a box reduced to its
/// edges, of the given thickness).
pub open spec fn cube_frame_sdf_spec(c: V3, b: V3, th: int, p: V3) -> int {
    let px = abs(p.x - c.x) - b.x;
    let py = abs(p.y - c.y) - b.y;
    let pz = abs(p.z - c.z) - b.z;
    let qx = abs(px + th) - th;
    let qy = abs(py + th) - th;
    let qz = abs(pz + th) - th;
    imin(imin(frame_term_spec(px, qy, qz), frame_term_spec(qx, py, qz)), frame_term_spec(qx, qy,
        pz))
}

/// Exact fixed-point distance of a torus around the Y axis.
pub open spec fn torus_sdf_spec(c: V3, ro: int, ri: int, p: V3) -> int {
    let ring = sqrt_floor(((p.x - c.x) * (p.x - c.x) + (p.z - c.z) * (p.z - c.z)) as nat) - ro;
    sqrt_floor((ring * ring + (p.y - c.y) * (p.y - c.y)) as nat) - ri
}

pub open spec fn shape_sdf_spec(s: Shape, p: V3) -> int {
    match s {
        Shape::Sphere { center, radius } => sphere_sdf_spec(center@, radius as int, p),
        Shape::Cube { center, most_front_up_right } => cube_sdf_spec(center@,
            most_front_up_right@, p),
        Shape::CubeFrame { center, bounds, thickness } => cube_frame_sdf_spec(center@, bounds@,
            thickness as int, p),
        Shape::Torus { center, outer_radius, inner_radius } => torus_sdf_spec(center@,
            outer_radius as int, inner_radius as int, p),
    }
}

impl Shape {
    pub open spec fn wf(self) -> bool {
        match self {
            Shape::Sphere { center, radius } => center.bounded(SDF_LIMIT as int) && 0 <= radius
                <= SDF_LIMIT,
            Shape::Cube { center, most_front_up_right } => center.bounded(SDF_LIMIT as int)
                && most_front_up_right.bounded(SDF_LIMIT as int) && most_front_up_right.x >= 0
                && most_front_up_right.y >= 0 && most_front_up_right.z >= 0,
            Shape::CubeFrame { center, bounds, thickness } => center.bounded(SDF_LIMIT as int)
                && bounds.bounded(SDF_LIMIT as int) && bounds.x >= 0 && bounds.y >= 0 && bounds.z
                >= 0 && 0 <= thickness <= SDF_LIMIT,
            Shape::Torus { center, outer_radius, inner_radius } => center.bounded(
                SDF_LIMIT as int) && 0 <= outer_radius <= SDF_LIMIT && 0 <= inner_radius
                <= SDF_LIMIT,
        }
    }

    pub fn shape_type(&self) -> (t: ShapeType)
        ensures
            t == match self {
                Shape::Sphere { .. } => ShapeType::Sphere,
                Shape::Cube { .. } => ShapeType::Cube,
                Shape::CubeFrame { .. } => ShapeType::CubeFrame,
                Shape::Torus { .. } => ShapeType::Torus,
            },
    {
        match self {
            Shape::Sphere { .. } => ShapeType::Sphere,
            Shape::Cube { .. } => ShapeType::Cube,
            Shape::CubeFrame { .. } => ShapeType::CubeFrame,
            Shape::Torus { .. } => ShapeType::Torus,
        }
    }

    /// Exact fixed-point signed distance from `p` to the shape surface:
    /// the rounded-down value of the analytic field.
    #[verifier::rlimit(100)]
    pub fn sdf(&self, p: &Vec3) -> (d: i64)
        requires
            self.wf(),
            p.bounded(SDF_LIMIT as int),
        ensures
            d == shape_sdf_spec(*self, p@),
            abs(d as int) <= 5_000_000_000i64 as int,
    {
        match self {
            Shape::Sphere { center, radius } => {
                let dv = center.sub(p);
                let len = dv.length();
                proof {
                    lemma_len_cap(dv@);
                }
                len - *radius
            },
            Shape::Cube { center, most_front_up_right } => {
                let dx = abs_i64(p.x - center.x) - most_front_up_right.x;
                let dy = abs_i64(p.y - center.y) - most_front_up_right.y;
                let dz = abs_i64(p.z - center.z) - most_front_up_right.z;
                let cx = if dx >= 0 { dx } else { 0 };
                let cy = if dy >= 0 { dy } else { 0 };
                let cz = if dz >= 0 { dz } else { 0 };
                let dc = Vec3 { x: cx, y: cy, z: cz };
                let len = dc.length();
                proof {
                    lemma_len_cap(dc@);
                }
                let mx = if dx >= dy { dx } else { dy };
                let mx = if mx >= dz { mx } else { dz };
                let inner = if mx <= 0 { mx } else { 0 };
                len + inner
            },
            Shape::CubeFrame { center, bounds, thickness } => {
                let px = abs_i64(p.x - center.x) - bounds.x;
                let py = abs_i64(p.y - center.y) - bounds.y;
                let pz = abs_i64(p.z - center.z) - bounds.z;
                let qx = abs_i64(px + *thickness) - *thickness;
                let qy = abs_i64(py + *thickness) - *thickness;
                let qz = abs_i64(pz + *thickness) - *thickness;
                let t1 = frame_term(px, qy, qz);
                let t2 = frame_term(qx, py, qz);
                let t3 = frame_term(qx, qy, pz);
                let m = if t1 <= t2 { t1 } else { t2 };
                if m <= t3 { m } else { t3 }
            },
            Shape::Torus { center, outer_radius, inner_radius } => {
                let px = p.x - center.x;
                let pz = p.z - center.z;
                proof {
                    crate::vec3::lemma_square_nonneg(px as int);
                    crate::vec3::lemma_square_nonneg(pz as int);
                    crate::vec3::lemma_abs_mul_bound(px as int, px as int, 600_000_000);
                    crate::vec3::lemma_abs_mul_bound(pz as int, pz as int, 600_000_000);
                }
                let ring2 = (px as i128) * (px as i128) + (pz as i128) * (pz as i128);
                let rl = Math::isqrt(ring2 as u128);
                proof {
                    assert(rl <= 850_000_000) by (nonlinear_arith)
                        requires
                            rl * rl <= ring2,
                            ring2 <= 720_000_000_000_000_000i128,
                    ;
                }
                let ring = rl as i64 - *outer_radius;
                let py = p.y - center.y;
                proof {
                    crate::vec3::lemma_abs_mul_bound(ring as int, ring as int,
                        1_150_000_000i64 as int);
                    crate::vec3::lemma_square_nonneg(ring as int);
                    crate::vec3::lemma_square_nonneg(py as int);
                    crate::vec3::lemma_abs_mul_bound(py as int, py as int, 600_000_000);
                }
                let d2 = (ring as i128) * (ring as i128) + (py as i128) * (py as i128);
                let dl = Math::isqrt(d2 as u128);
                proof {
                    assert(dl <= 1_310_000_000) by (nonlinear_arith)
                        requires
                            dl * dl <= d2,
                            d2 <= 1_700_000_000_000_000_000i128,
                    ;
                }
                dl as i64 - *inner_radius
            },
        }
    }
}

/// Exact absolute value.
pub fn abs_i64(v: i64) -> (r: i64)
    requires
        v > i64::MIN,
    ensures
        r == abs(v as int),
{
    if v >= 0 {
        v
    } else {
        -v
    }
}

fn frame_term(a: i64, b: i64, c: i64) -> (r: i64)
    requires
        abs(a as int) <= 1_500_000_000i64 as int,
        abs(b as int) <= 1_500_000_000i64 as int,
        abs(c as int) <= 1_500_000_000i64 as int,
    ensures
        r == frame_term_spec(a as int, b as int, c as int),
        abs(r as int) <= 4_200_000_000i64 as int,
{
    let ma = if a >= 0 { a } else { 0 };
    let mb = if b >= 0 { b } else { 0 };
    let mc = if c >= 0 { c } else { 0 };
    let m = Vec3 { x: ma, y: mb, z: mc };
    proof {
        lemma_len_cap2(m@);
    }
    let len = m.length();
    let mx = if a >= b { a } else { b };
    let mx = if mx >= c { mx } else { c };
    let inner = if mx <= 0 { mx } else { 0 };
    len + inner
}

/// The rounded-down length of a vector within the scene cap stays within
/// one diagonal of the cap.
proof fn lemma_len_cap(v: V3)
    requires
        v.bounded(600_000_000),
    ensures
        0 <= sqrt_floor(v.norm2() as nat) <= 1_040_000_000,
{
    crate::triangle::lemma_dot_bound(v, v, 600_000_000, 600_000_000);
    crate::vec3::lemma_square_nonneg(v.x);
    crate::vec3::lemma_square_nonneg(v.y);
    crate::vec3::lemma_square_nonneg(v.z);
    crate::math::lemma_sqrt_floor(v.norm2() as nat);
    let f = sqrt_floor(v.norm2() as nat);
    assert(f <= 1_040_000_000) by (nonlinear_arith)
        requires
            f * f <= v.norm2(),
            v.norm2() <= 1_080_000_000_000_000_000,
    ;
}

proof fn lemma_len_cap2(v: V3)
    requires
        v.bounded(1_500_000_000i64 as int),
    ensures
        0 <= sqrt_floor(v.norm2() as nat) <= 2_600_000_000i64 as int,
{
    crate::triangle::lemma_dot_bound(v, v, 1_500_000_000i64 as int, 1_500_000_000i64 as int);
    crate::vec3::lemma_square_nonneg(v.x);
    crate::vec3::lemma_square_nonneg(v.y);
    crate::vec3::lemma_square_nonneg(v.z);
    crate::math::lemma_sqrt_floor(v.norm2() as nat);
    let f = sqrt_floor(v.norm2() as nat);
    assert(f <= 2_600_000_000i64 as int) by (nonlinear_arith)
        requires
            f * f <= v.norm2(),
            v.norm2() <= 6_750_000_000_000_000_000,
    ;
}

/// Combination of two signed distances under a CSG operator, exactly in
/// fixed point.  Smooth union uses the blend radius `k = SCALE` (one
/// world unit): `h = clamp((k + b - a) / 2, 0, k)`, then
/// `lerp(b, a, h) - k h (1 - h)` scaled to the grid.
pub open spec fn op_sdf_spec(a: int, op: ShapeOpType, b: int) -> int {
    match op {
        ShapeOpType::Union => imin(a, b),
        ShapeOpType::Subtraction => imax(a, -b),
        ShapeOpType::Intersection => imax(a, b),
        ShapeOpType::SmoothUnion => {
            let h = imax(imin(tdiv(SCALE + b - a, 2), SCALE as int), 0);
            tdiv(b * (SCALE - h) + a * h, SCALE as int) - tdiv(h * (SCALE - h), SCALE as int)
        },
        ShapeOpType::Nop => a,
    }
}

/// A node of the CSG operator chain; `next` points down the chain in the
/// scene arena (always to an earlier slot).
#[derive(Clone, Copy, Debug)]
pub struct ShapeOp {
    pub shape: Shape,
    pub op: ShapeOpType,
    pub material: usize,
    pub next: Option<usize>,
}

impl ShapeOp {
    pub open spec fn wf(self, own_index: int) -> bool {
        &&& self.shape.wf()
        &&& match self.next {
            Some(k) => k < own_index && !(self.op is Nop),
            None => true,
        }
    }
}

/// Effective distance of the chain headed by `acc`'s node: a left fold
/// that combines each successor's shape distance with the head's
/// operator.
pub open spec fn chain_tail_spec(
    nodes: Seq<ShapeOp>,
    op: ShapeOpType,
    acc: int,
    next: Option<usize>,
    p: V3,
) -> int
    decreases (match next {
        Some(k) => k + 1int,
        None => 0int,
    }),
{
    match next {
        Some(k) => {
            if k < nodes.len() && (match nodes[k as int].next {
                Some(k2) => k2 < k,
                None => true,
            }) {
                chain_tail_spec(nodes, op, op_sdf_spec(acc, op, shape_sdf_spec(
                    nodes[k as int].shape, p)), nodes[k as int].next, p)
            } else {
                acc
            }
        },
        None => acc,
    }
}

/// The distance of the whole chain headed at index `j`.
pub open spec fn chain_sdf_spec(nodes: Seq<ShapeOp>, j: int, p: V3) -> int {
    chain_tail_spec(nodes, nodes[j].op, shape_sdf_spec(nodes[j].shape, p), nodes[j].next, p)
}

/// Measure for walking a chain of `next` links, which always point to
/// earlier arena slots.
pub open spec fn opt_measure(next: Option<usize>) -> int {
    match next {
        Some(k) => k + 1int,
        None => 0int,
    }
}

/// Exact fixed-point CSG combination of two distances.
pub fn op_sdf(a: i64, op: &ShapeOpType, b: i64) -> (r: i64)
    requires
        !(op is Nop),
        abs(a as int) <= 6_000_000_000i64 as int,
        abs(b as int) <= 5_000_000_000i64 as int,
    ensures
        r == op_sdf_spec(a as int, *op, b as int),
        abs(r as int) <= imax(abs(a as int), abs(b as int)) + 250,
{
    match op {
        ShapeOpType::Union => if a <= b { a } else { b },
        ShapeOpType::Subtraction => {
            let nb = -b;
            if a >= nb { a } else { nb }
        },
        ShapeOpType::Intersection => if a >= b { a } else { b },
        ShapeOpType::SmoothUnion => {
            let hr = Math::div_trunc((SCALE as i128) + (b as i128) - (a as i128), 2);
            proof {
                crate::vec3::lemma_tdiv_shrinks(SCALE + b - a, 2);
            }
            let h = Math::clamp_i64(hr as i64, 0, SCALE);
            proof {
                lemma_blend_bounds(a as int, b as int, h as int);
                crate::vec3::lemma_abs_mul_bound(b as int, (SCALE - h) as int,
                    6_000_000_000i64 as int);
                crate::vec3::lemma_abs_mul_bound(a as int, h as int, 6_000_000_000i64 as int);
                crate::vec3::lemma_abs_mul_bound(h as int, (SCALE - h) as int, 1000);
            }
            let num = (b as i128) * ((SCALE - h) as i128) + (a as i128) * (h as i128);
            let blend = Math::div_trunc(num, SCALE as i128) as i64;
            let hk = Math::div_trunc((h as i128) * ((SCALE - h) as i128), SCALE as i128) as i64;
            blend - hk
        },
        ShapeOpType::Nop => a,
    }
}

/// The smooth-union blend stays within the inputs' range and the bump
/// term within a quarter unit.
proof fn lemma_blend_bounds(a: int, b: int, h: int)
    requires
        0 <= h <= SCALE,
        abs(a) <= 6_000_000_000i64 as int,
        abs(b) <= 6_000_000_000i64 as int,
    ensures
        abs(b * (SCALE - h) + a * h) <= 6_000_000_000_000i64 as int,
        abs(tdiv(b * (SCALE - h) + a * h, SCALE as int)) <= imax(abs(a), abs(b)),
        0 <= h * (SCALE - h) <= 250_000,
        0 <= tdiv(h * (SCALE - h), SCALE as int) <= 250,
    decreases 0int,
{
    let m = imax(abs(a), abs(b));
    assert(abs(b * (SCALE - h) + a * h) <= m * SCALE && 0 <= h * (SCALE - h) <= 250_000)
        by (nonlinear_arith)
        requires
            0 <= h <= SCALE,
            SCALE == 1000,
            abs(a) <= m,
            abs(b) <= m,
            m <= 6_000_000_000i64 as int,
            m == imax(abs(a), abs(b)),
    ;
    crate::math::lemma_tdiv_bound(b * (SCALE - h) + a * h, SCALE as int, m);
    crate::math::lemma_tdiv_bound(h * (SCALE - h), SCALE as int, 250);
    assert(tdiv(h * (SCALE - h), SCALE as int) >= 0);
}

/// A surface material of the marching renderer: fixed-point diffuse
/// colour, emission, metalness and roughness.
#[derive(Clone, Copy, Debug)]
pub struct PBRMaterial {
    pub kd: Vec3,
    pub emission: Vec3,
    pub metalness: i64,
    pub roughness: i64,
    /// Ambient occlusion in `[0, SCALE]`.
    pub ao: i64,
}

impl PBRMaterial {
    pub open spec fn wf(self) -> bool {
        &&& self.kd.bounded(SCALE as int)
        &&& self.emission.bounded(2_000_000_000)
        &&& 0 <= self.metalness <= SCALE
        &&& 0 <= self.roughness <= SCALE
        &&& 0 <= self.ao <= SCALE
    }
}

/// Result of a march: the fixed-point distance along the ray and the
/// arena index of the root chain that was hit (`None`: no surface within
/// reach, distance reads as the sentinel maximum).
#[derive(Clone, Copy, PartialEq, Eq, Structural, Debug)]
pub struct HitResult {
    pub distance: i64,
    pub shape_op: Option<usize>,
}

impl HitResult {
    pub fn new() -> (r: HitResult)
        ensures
            r.distance == i64::MAX,
            r.shape_op is None,
    {
        HitResult { distance: i64::MAX, shape_op: None }
    }
}

/// A directional light: direction and colour.
#[derive(Clone, Copy, Debug)]
pub struct DirectionalLight {
    pub direction: Vec3,
    pub color: Vec3,
}

/// Arena-based scene of CSG operator chains, marched by sphere tracing.
pub struct SdfScene {
    pub nodes: Vec<ShapeOp>,
    pub root_nodes: Vec<usize>,
    pub ground_node: Option<usize>,
    pub materials: Vec<PBRMaterial>,
    pub background_color: Vec3,
    pub main_light: DirectionalLight,
    pub width: u32,
    pub height: u32,
    /// Vertical field of view in thousandths of a degree.
    pub fov: i64,
    pub sample_per_pixel: u32,
}

/// Best (distance, root) over the first `k` root chains, keeping the
/// earliest root on ties.
pub open spec fn roots_best(nodes: Seq<ShapeOp>, roots: Seq<usize>, k: int, p: V3) -> (int,
    Option<usize>)
    decreases k,
{
    if k <= 0 {
        (i64::MAX as int, None)
    } else {
        let prev = roots_best(nodes, roots, k - 1, p);
        let d = chain_sdf_spec(nodes, roots[k - 1] as int, p);
        if d < prev.0 {
            (d, Some(roots[k - 1]))
        } else {
            prev
        }
    }
}

impl SdfScene {
    pub open spec fn wf(self) -> bool {
        &&& self.nodes@.len() <= 1_000_000
        &&& forall|i: int|
            0 <= i < self.nodes@.len() ==> (#[trigger] self.nodes@[i]).wf(i)
                && self.nodes@[i].material < self.materials@.len()
        &&& forall|i: int| 0 <= i < self.materials@.len() ==> (#[trigger] self.materials@[i]).wf()
        &&& forall|i: int|
            0 <= i < self.root_nodes@.len() ==> (#[trigger] self.root_nodes@[i])
                < self.nodes@.len()
        &&& match self.ground_node {
            Some(g) => g < self.nodes@.len(),
            None => true,
        }
        &&& self.background_color.bounded(2_000_000_000)
        &&& self.main_light.direction.bounded(2_000)
        &&& self.main_light.color.bounded(2_000_000_000)
    }

    /// Register a material, returning its handle.
    pub fn add_material(&mut self, m: PBRMaterial) -> (idx: usize)
        requires
            old(self).wf(),
            m.wf(),
        ensures
            final(self).wf(),
            idx == old(self).materials@.len(),
            final(self).materials@ == old(self).materials@.push(m),
            final(self).nodes == old(self).nodes,
            final(self).root_nodes == old(self).root_nodes,
            final(self).ground_node == old(self).ground_node,
            final(self).background_color == old(self).background_color,
    {
        let idx = self.materials.len();
        self.materials.push(m);
        idx
    }

    pub fn new(
        width: u32,
        height: u32,
        fov: i64,
        sample_per_pixel: u32,
        background_color: Vec3,
        main_light: DirectionalLight,
    ) -> (s: SdfScene)
        requires
            background_color.bounded(2_000_000_000),
            main_light.direction.bounded(2_000),
            main_light.color.bounded(2_000_000_000),
        ensures
            s.wf(),
            s.nodes@.len() == 0,
            s.root_nodes@.len() == 0,
            s.materials@.len() == 0,
            s.ground_node is None,
            s.background_color == background_color,
            s.main_light == main_light,
            s.width == width && s.height == height && s.fov == fov && s.sample_per_pixel
                == sample_per_pixel,
    {
        SdfScene {
            nodes: Vec::new(),
            root_nodes: Vec::new(),
            ground_node: None,
            materials: Vec::new(),
            background_color,
            main_light,
            width,
            height,
            fov,
            sample_per_pixel,
        }
    }

    /// Append a chain head with no successor; returns its arena index.
    pub fn add_leaf_node(&mut self, shape: Shape, material: usize) -> (idx: usize)
        requires
            old(self).wf(),
            old(self).nodes@.len() < 1_000_000,
            shape.wf(),
            material < old(self).materials@.len(),
        ensures
            final(self).wf(),
            idx == old(self).nodes@.len(),
            final(self).nodes@ == old(self).nodes@.push(ShapeOp { shape, op: ShapeOpType::Nop,
                material, next: None }),
            final(self).root_nodes == old(self).root_nodes,
            final(self).ground_node == old(self).ground_node,
            final(self).background_color == old(self).background_color,
    {
        let idx = self.nodes.len();
        self.nodes.push(ShapeOp { shape, op: ShapeOpType::Nop, material, next: None });
        idx
    }

    /// Append a chain node combining `shape` with the chain at `next`
    /// under `op`; returns its arena index.
    pub fn add_node(&mut self, shape: Shape, material: usize, op: ShapeOpType, next: Option<
        usize>) -> (idx: usize)
        requires
            old(self).wf(),
            old(self).nodes@.len() < 1_000_000,
            shape.wf(),
            material < old(self).materials@.len(),
            match next {
                Some(k) => k < old(self).nodes@.len() && !(op is Nop),
                None => true,
            },
        ensures
            final(self).wf(),
            idx == old(self).nodes@.len(),
            final(self).nodes@ == old(self).nodes@.push(ShapeOp { shape, op, material, next }),
            final(self).root_nodes == old(self).root_nodes,
            final(self).ground_node == old(self).ground_node,
            final(self).background_color == old(self).background_color,
    {
        let idx = self.nodes.len();
        self.nodes.push(ShapeOp { shape, op, material, next });
        idx
    }

    /// Mark a chain as a root of the scene.
    pub fn add_root_node(&mut self, node: usize)
        requires
            old(self).wf(),
            node < old(self).nodes@.len(),
        ensures
            final(self).wf(),
            final(self).root_nodes@ == old(self).root_nodes@.push(node),
            final(self).nodes == old(self).nodes,
            final(self).ground_node == old(self).ground_node,
            final(self).background_color == old(self).background_color,
    {
        self.root_nodes.push(node);
    }

    /// Mark a chain as the ground plane (its albedo is replaced by a
    /// checkerboard during shading).
    pub fn set_ground(&mut self, node: usize)
        requires
            old(self).wf(),
            node < old(self).nodes@.len(),
        ensures
            final(self).wf(),
            final(self).ground_node == Some(node),
            final(self).nodes == old(self).nodes,
            final(self).root_nodes == old(self).root_nodes,
            final(self).background_color == old(self).background_color,
    {
        self.ground_node = Some(node);
    }

    pub fn is_ground(&self, node: usize) -> (r: bool)
        ensures
            r == (self.ground_node == Some(node)),
    {
        match self.ground_node {
            Some(g) => g == node,
            None => false,
        }
    }

    /// The effective distance of the chain headed at arena index `j`:
    /// a left fold down the `next` links, combining with the head's
    /// operator.
    pub fn chain_sdf(&self, j: usize, p: &Vec3) -> (d: i64)
        requires
            self.wf(),
            j < self.nodes@.len(),
            p.bounded(SDF_LIMIT as int),
        ensures
            d == chain_sdf_spec(self.nodes@, j as int, p@),
            abs(d as int) <= 6_000_000_000i64 as int,
    {
        let head = self.nodes[j];
        let mut acc = head.shape.sdf(p);
        let mut next = head.next;
        let ghost goal = chain_sdf_spec(self.nodes@, j as int, p@);
        while next.is_some()
            invariant
                self.wf(),
                p.bounded(SDF_LIMIT as int),
                !(head.op is Nop) || next is None,
                chain_tail_spec(self.nodes@, head.op, acc as int, next, p@) == goal,
                match next {
                    Some(k) => k < self.nodes@.len(),
                    None => true,
                },
                abs(acc as int) <= 6_000_000_000i64 as int - 250 * opt_measure(next),
                opt_measure(next) >= 0,
            decreases opt_measure(next),
        {
            let k = next.unwrap();
            let node = self.nodes[k];
            let sk = node.shape.sdf(p);
            acc = op_sdf(acc, &head.op, sk);
            next = node.next;
        }
        acc
    }

    /// The scene's signed distance at `p`: the minimum over the root
    /// chains, identifying the earliest root that attains it.
    pub fn sdf(&self, p: &Vec3) -> (hr: HitResult)
        requires
            self.wf(),
            p.bounded(SDF_LIMIT as int),
        ensures
            (hr.distance as int, hr.shape_op) == roots_best(self.nodes@, self.root_nodes@,
                self.root_nodes@.len() as int, p@),
            hr.shape_op is None ==> hr.distance == i64::MAX,
            hr.shape_op matches Some(g) ==> g < self.nodes@.len() && abs(hr.distance as int)
                <= 6_000_000_000i64 as int,
    {
        let mut result = HitResult::new();
        let mut i: usize = 0;
        let n = self.root_nodes.len();
        while i < n
            invariant
                self.wf(),
                p.bounded(SDF_LIMIT as int),
                n == self.root_nodes@.len(),
                i <= n,
                (result.distance as int, result.shape_op) == roots_best(self.nodes@,
                    self.root_nodes@, i as int, p@),
                result.shape_op is None ==> result.distance == i64::MAX,
                result.shape_op matches Some(g) ==> g < self.nodes@.len() && abs(
                    result.distance as int) <= 6_000_000_000i64 as int,
            decreases n - i,
        {
            let root = self.root_nodes[i];
            let dist = self.chain_sdf(root, p);
            if dist < result.distance {
                result.distance = dist;
                result.shape_op = Some(root);
            }
            i = i + 1;
        }
        result
    }
}

/// The marching point at fixed-point parameter `t` (thousandths of a
/// unit along the direction vector), truncated to the grid.
pub open spec fn march_point(ray: crate::domain::Ray, t: int) -> V3 {
    V3 {
        x: tdiv(ray.origin@.x * SCALE + t * ray.direction@.x, SCALE as int),
        y: tdiv(ray.origin@.y * SCALE + t * ray.direction@.y, SCALE as int),
        z: tdiv(ray.origin@.z * SCALE + t * ray.direction@.z, SCALE as int),
    }
}

/// The sphere march as a mathematical recurrence: step by the scene
/// distance until it drops to `MARCH_ACCURACY` (hit at the current
/// parameter), the parameter leaves `max_dist`, or the step budget is
/// exhausted.
pub open spec fn march_spec(
    nodes: Seq<ShapeOp>,
    roots: Seq<usize>,
    ray: crate::domain::Ray,
    t: int,
    fuel: nat,
    max_dist: int,
) -> HitResult
    decreases fuel,
{
    if fuel == 0 {
        HitResult { distance: i64::MAX, shape_op: None }
    } else {
        let p = march_point(ray, t);
        let best = roots_best(nodes, roots, roots.len() as int, p);
        if best.0 <= MARCH_ACCURACY {
            HitResult { distance: t as i64, shape_op: best.1 }
        } else {
            let t2 = t + best.0;
            if t2 >= max_dist {
                HitResult { distance: i64::MAX, shape_op: None }
            } else {
                march_spec(nodes, roots, ray, t2, (fuel - 1) as nat, max_dist)
            }
        }
    }
}

/// The central-difference normal of chain `g` at `p`, as a mathematical
/// function: raw differences one grid unit to each side, divided by
/// `2h` with `h = 1/SCALE`.
pub open spec fn normal_spec(nodes: Seq<ShapeOp>, g: int, p: Vec3) -> Vec3 {
    Vec3 {
        x: (500 * (chain_sdf_spec(nodes, g, V3 { x: p@.x + 1, y: p@.y, z: p@.z })
            - chain_sdf_spec(nodes, g, V3 { x: p@.x - 1, y: p@.y, z: p@.z }))) as i64,
        y: (500 * (chain_sdf_spec(nodes, g, V3 { x: p@.x, y: p@.y + 1, z: p@.z })
            - chain_sdf_spec(nodes, g, V3 { x: p@.x, y: p@.y - 1, z: p@.z }))) as i64,
        z: (500 * (chain_sdf_spec(nodes, g, V3 { x: p@.x, y: p@.y, z: p@.z + 1 })
            - chain_sdf_spec(nodes, g, V3 { x: p@.x, y: p@.y, z: p@.z - 1 }))) as i64,
    }
}

impl SdfScene {
    /// Sphere-march the ray up to `max_dist` (fixed-point units): the
    /// result is exactly the value of the marching recurrence.
    pub fn ray_march(&self, ray: &crate::domain::Ray, max_dist: i64) -> (hr: HitResult)
        requires
            self.wf(),
            ray.origin.bounded(250_000_000),
            ray.direction.bounded(2_000),
            0 < max_dist <= 25_000_000,
        ensures
            hr == march_spec(self.nodes@, self.root_nodes@, *ray, 0, MAX_STEPS as nat,
                max_dist as int),
            hr.shape_op is Some ==> 0 <= hr.distance < max_dist,
            hr.shape_op matches Some(g) ==> g < self.nodes@.len(),
            hr.shape_op is None ==> hr.distance == i64::MAX,
    {
        let mut t: i64 = 0;
        let mut steps: u32 = 0;
        let ghost goal = march_spec(self.nodes@, self.root_nodes@, *ray, 0, MAX_STEPS as nat,
            max_dist as int);
        while steps < MAX_STEPS
            invariant
                self.wf(),
                ray.origin.bounded(250_000_000),
                ray.direction.bounded(2_000),
                0 < max_dist <= 25_000_000,
                steps <= MAX_STEPS,
                0 <= t < max_dist,
                goal == march_spec(self.nodes@, self.root_nodes@, *ray, 0, MAX_STEPS as nat,
                    max_dist as int),
                march_spec(self.nodes@, self.root_nodes@, *ray, t as int, (MAX_STEPS
                    - steps) as nat, max_dist as int) == goal,
            decreases MAX_STEPS - steps,
        {
            let tq = crate::rat::Rat::new(t as i128, SCALE as i128);
            proof {
                lemma_march_point_fits(*ray, t as int);
            }
            let p = ray.eval(&tq);
            proof {
                crate::math::lemma_tdiv_bound(ray.origin@.x * SCALE + (t as int)
                    * ray.direction@.x, SCALE as int, SDF_LIMIT as int);
                crate::math::lemma_tdiv_bound(ray.origin@.y * SCALE + (t as int)
                    * ray.direction@.y, SCALE as int, SDF_LIMIT as int);
                crate::math::lemma_tdiv_bound(ray.origin@.z * SCALE + (t as int)
                    * ray.direction@.z, SCALE as int, SDF_LIMIT as int);
            }
            let hit = self.sdf(&p);
            proof {
                assert(p@ == march_point(*ray, t as int));
                assert((hit.distance as int, hit.shape_op) == roots_best(self.nodes@,
                    self.root_nodes@, self.root_nodes@.len() as int, march_point(*ray,
                        t as int)));
            }
            if hit.distance <= MARCH_ACCURACY {
                proof {
                    assert(march_spec(self.nodes@, self.root_nodes@, *ray, t as int, (MAX_STEPS
                        - steps) as nat, max_dist as int) == (HitResult { distance: t,
                        shape_op: hit.shape_op }));
                }
                return HitResult { distance: t, shape_op: hit.shape_op };
            }
            if hit.distance >= max_dist - t {
                return HitResult { distance: i64::MAX, shape_op: None };
            }
            t = t + hit.distance;
            steps = steps + 1;
        }
        HitResult { distance: i64::MAX, shape_op: None }
    }

    /// Central-difference surface normal of the hit chain, one grid unit
    /// to each side, scaled back to vector length about `SCALE`: the
    /// raw difference divided by `2h` with `h = 1/SCALE`.
    pub fn normal(&self, hit: &HitResult, p: &Vec3) -> (n: Vec3)
        requires
            self.wf(),
            hit.shape_op matches Some(g) && g < self.nodes@.len(),
            p.bounded(SDF_LIMIT as int - 1),
        ensures
            hit.shape_op matches Some(g) ==> {
                &&& n@.x == 500 * (chain_sdf_spec(self.nodes@, g as int, V3 { x: p@.x + 1,
                    y: p@.y, z: p@.z }) - chain_sdf_spec(self.nodes@, g as int, V3 {
                    x: p@.x - 1, y: p@.y, z: p@.z }))
                &&& n@.y == 500 * (chain_sdf_spec(self.nodes@, g as int, V3 { x: p@.x, y: p@.y
                    + 1, z: p@.z }) - chain_sdf_spec(self.nodes@, g as int, V3 { x: p@.x,
                    y: p@.y - 1, z: p@.z }))
                &&& n@.z == 500 * (chain_sdf_spec(self.nodes@, g as int, V3 { x: p@.x, y: p@.y,
                    z: p@.z + 1 }) - chain_sdf_spec(self.nodes@, g as int, V3 { x: p@.x,
                    y: p@.y, z: p@.z - 1 }))
            },
            hit.shape_op matches Some(g) ==> n == normal_spec(self.nodes@, g as int, *p),
            n.bounded(7_000_000_000_000i64 as int),
    {
        let g = match hit.shape_op {
            Some(g) => g,
            None => 0,
        };
        let sxp = self.chain_sdf(g, &Vec3 { x: p.x + 1, y: p.y, z: p.z });
        let sxm = self.chain_sdf(g, &Vec3 { x: p.x - 1, y: p.y, z: p.z });
        let syp = self.chain_sdf(g, &Vec3 { x: p.x, y: p.y + 1, z: p.z });
        let sym = self.chain_sdf(g, &Vec3 { x: p.x, y: p.y - 1, z: p.z });
        let szp = self.chain_sdf(g, &Vec3 { x: p.x, y: p.y, z: p.z + 1 });
        let szm = self.chain_sdf(g, &Vec3 { x: p.x, y: p.y, z: p.z - 1 });
        Vec3 { x: 500 * (sxp - sxm), y: 500 * (syp - sym), z: 500 * (szp - szm) }
    }
}

/// The marching point's scaled coordinates stay far inside the exact
/// evaluation range.
proof fn lemma_march_point_fits(ray: crate::domain::Ray, t: int) by (nonlinear_arith)
    requires
        ray.origin.bounded(250_000_000),
        ray.direction.bounded(2_000),
        0 <= t <= 25_000_000,
    ensures
        abs(ray.origin@.x * SCALE + t * ray.direction@.x) <= SDF_LIMIT as int * SCALE as int,
        abs(ray.origin@.y * SCALE + t * ray.direction@.y) <= SDF_LIMIT as int * SCALE as int,
        abs(ray.origin@.z * SCALE + t * ray.direction@.z) <= SDF_LIMIT as int * SCALE as int,
        abs(ray.origin@.x * SCALE + t * ray.direction@.x) <= 0x4000_0000_0000_0000i64 * SCALE
            as int,
        abs(ray.origin@.y * SCALE + t * ray.direction@.y) <= 0x4000_0000_0000_0000i64 * SCALE
            as int,
        abs(ray.origin@.z * SCALE + t * ray.direction@.z) <= 0x4000_0000_0000_0000i64 * SCALE
            as int,
{
}

/// Sphere-marching a unit sphere at the origin from ten units out on
/// the axis: the march lands within `MARCH_ACCURACY` of nine units, in
/// exactly two evaluations.
pub proof fn lemma_march_unit_sphere(nodes: Seq<ShapeOp>, roots: Seq<usize>,
    ray: crate::domain::Ray, max_dist: int)
    requires
        nodes.len() == 1,
        nodes[0] == (ShapeOp {
            shape: Shape::Sphere {
                center: Vec3 { x: 0, y: 0, z: 0 },
                radius: 1000,
            },
            op: ShapeOpType::Nop,
            material: 0,
            next: None,
        }),
        roots =~= seq![0usize],
        ray.origin@ == (V3 { x: 0int, y: 0int, z: -10_000int }),
        ray.direction@ == (V3 { x: 0int, y: 0int, z: 1000int }),
        9_001 <= max_dist <= 100_000_000,
    ensures
        march_spec(nodes, roots, ray, 0, MAX_STEPS as nat, max_dist) == (HitResult {
            distance: 9_000,
            shape_op: Some(0usize),
        }),
{
    assert(10_000int * 10_000int == 100_000_000int) by (nonlinear_arith);
    assert(10_001int * 10_001int == 100_020_001int) by (nonlinear_arith);
    assert(1_000int * 1_000int == 1_000_000int) by (nonlinear_arith);
    assert(1_001int * 1_001int == 1_002_001int) by (nonlinear_arith);
    assert((-10_000int) * 1000int == -10_000_000int) by (nonlinear_arith);
    assert(9_000int * 1000int == 9_000_000int) by (nonlinear_arith);
    let p0 = march_point(ray, 0);
    assert(p0.z == tdiv(-10_000_000, 1000));
    assert(p0 == (V3 { x: 0int, y: 0int, z: -10_000int }));
    crate::math::lemma_sqrt_floor_unique(100_000_000nat, 10_000nat);
    let c = V3 { x: 0int, y: 0int, z: 0int };
    assert(c.sub(p0).norm2() == 100_000_000);
    assert(chain_sdf_spec(nodes, 0, p0) == 9_000);
    assert(roots_best(nodes, roots, 0, p0) == (i64::MAX as int, None::<usize>));
    assert(roots_best(nodes, roots, 1, p0) == (9_000int, Some(0usize)));
    let p1 = march_point(ray, 9_000);
    assert(p1.z == tdiv(-10_000_000 + 9_000_000, 1000));
    assert(p1 == (V3 { x: 0int, y: 0int, z: -1_000int }));
    crate::math::lemma_sqrt_floor_unique(1_000_000nat, 1_000nat);
    assert(c.sub(p1).norm2() == 1_000_000);
    assert(sphere_sdf_spec(c, 1000, p1) == 0);
    assert(chain_sdf_spec(nodes, 0, p1) == 0);
    assert(roots_best(nodes, roots, 0, p1) == (i64::MAX as int, None::<usize>));
    assert(roots_best(nodes, roots, 1, p1) == (0int, Some(0usize)));
    assert(march_spec(nodes, roots, ray, 9_000, (MAX_STEPS - 1) as nat, max_dist)
        == (HitResult { distance: 9_000, shape_op: Some(0usize) }));
    assert(march_spec(nodes, roots, ray, 0, MAX_STEPS as nat, max_dist) == (HitResult {
        distance: 9_000,
        shape_op: Some(0usize),
    }));
}

/// On the axis of an origin-centred sphere, the central-difference
/// normal is exactly the analytic outward normal (scaled by `SCALE`):
/// zero across the axis and a full unit along it.
pub proof fn lemma_axis_normal_exact(nodes: Seq<ShapeOp>, r: int, z: int)
    requires
        nodes.len() == 1,
        nodes[0] == (ShapeOp {
            shape: Shape::Sphere {
                center: Vec3 { x: 0, y: 0, z: 0 },
                radius: r as i64,
            },
            op: ShapeOpType::Nop,
            material: 0,
            next: None,
        }),
        0 <= r <= 1_000_000,
        1 <= z <= 1_000_000,
    ensures
        chain_sdf_spec(nodes, 0, V3 { x: 1, y: 0, z: z }) == chain_sdf_spec(nodes, 0, V3 {
            x: -1, y: 0, z: z }),
        500 * (chain_sdf_spec(nodes, 0, V3 { x: 0, y: 0, z: z + 1 }) - chain_sdf_spec(nodes, 0,
            V3 { x: 0, y: 0, z: z - 1 })) == SCALE,
{
    lemma_sqrt_square(z);
    lemma_sqrt_square(z + 1);
    lemma_sqrt_square(z - 1);
    assert(z * z <= z * z + 1 < (z + 1) * (z + 1)) by (nonlinear_arith)
        requires
            1 <= z,
    ;
    crate::math::lemma_sqrt_floor_unique((z * z + 1) as nat, z as nat);
    let pp = V3 { x: 1int, y: 0int, z: z };
    let pm = V3 { x: -1int, y: 0int, z: z };
    let c = V3 { x: 0int, y: 0int, z: 0int };
    assert(0int * 0int == 0int) by (nonlinear_arith);
    assert((0int - 1int) * (0int - 1int) == 1int) by (nonlinear_arith);
    assert((0int - (-1int)) * (0int - (-1int)) == 1int) by (nonlinear_arith);
    assert((0int - z) * (0int - z) == z * z) by (nonlinear_arith);
    assert((0int - (z + 1)) * (0int - (z + 1)) == (z + 1) * (z + 1)) by (nonlinear_arith);
    assert((0int - (z - 1)) * (0int - (z - 1)) == (z - 1) * (z - 1)) by (nonlinear_arith);
    assert(c.sub(pp).norm2() == z * z + 1);
    assert(c.sub(pm).norm2() == z * z + 1);
    assert(c.sub(V3 { x: 0int, y: 0int, z: z + 1 }).norm2() == (z + 1) * (z + 1));
    assert(c.sub(V3 { x: 0int, y: 0int, z: z - 1 }).norm2() == (z - 1) * (z - 1));
}

/// `sqrt_floor` of a perfect square.
proof fn lemma_sqrt_square(z: int)
    requires
        0 <= z,
    ensures
        sqrt_floor((z * z) as nat) == z,
{
    assert(z * z < (z + 1) * (z + 1)) by (nonlinear_arith)
        requires
            z >= 0,
    ;
    crate::math::lemma_sqrt_floor_unique((z * z) as nat, z as nat);
}

/// `x^16 / SCALE^15` for a fixed-point fraction, by repeated squaring
/// with truncation at each step.
pub open spec fn pow16_frac(x: int) -> int {
    let q2 = tdiv(x * x, SCALE as int);
    let q4 = tdiv(q2 * q2, SCALE as int);
    let q8 = tdiv(q4 * q4, SCALE as int);
    tdiv(q8 * q8, SCALE as int)
}

/// Fixed-point `x^16` for `x` in `[0, SCALE]`.
pub fn pow16(x: i64) -> (r: i64)
    requires
        0 <= x <= SCALE,
    ensures
        r == pow16_frac(x as int),
        0 <= r <= SCALE,
{
    proof {
        lemma_pow16_steps(x as int);
    }
    let q2 = Math::div_trunc((x as i128) * (x as i128), 1000) as i64;
    let q4 = Math::div_trunc((q2 as i128) * (q2 as i128), 1000) as i64;
    let q8 = Math::div_trunc((q4 as i128) * (q4 as i128), 1000) as i64;
    Math::div_trunc((q8 as i128) * (q8 as i128), 1000) as i64
}

proof fn lemma_pow16_steps(x: int) by (nonlinear_arith)
    requires
        0 <= x <= SCALE,
        SCALE == 1000,
    ensures
        0 <= x * x <= 1_000_000,
        0 <= tdiv(x * x, 1000) <= 1000,
        0 <= tdiv(x * x, 1000) * tdiv(x * x, 1000) <= 1_000_000,
        0 <= tdiv(tdiv(x * x, 1000) * tdiv(x * x, 1000), 1000) <= 1000,
        0 <= tdiv(tdiv(x * x, 1000) * tdiv(x * x, 1000), 1000) * tdiv(tdiv(x * x, 1000) * tdiv(x
            * x, 1000), 1000) <= 1_000_000,
        0 <= tdiv(tdiv(tdiv(x * x, 1000) * tdiv(x * x, 1000), 1000) * tdiv(tdiv(x * x, 1000)
            * tdiv(x * x, 1000), 1000), 1000) <= 1000,
        0 <= tdiv(tdiv(tdiv(x * x, 1000) * tdiv(x * x, 1000), 1000) * tdiv(tdiv(x * x, 1000)
            * tdiv(x * x, 1000), 1000), 1000) * tdiv(tdiv(tdiv(x * x, 1000) * tdiv(x * x, 1000),
            1000) * tdiv(tdiv(x * x, 1000) * tdiv(x * x, 1000), 1000), 1000) <= 1_000_000,
{
}

/// The checkerboard parity of the ground at a point, in half-unit cells
/// offset by the image width.
pub open spec fn checker_spec(p: V3, width: int) -> bool {
    (tdiv(p.x, 2000) + width + tdiv(p.z, 2000) + 1000) % 2 != 0
}

/// Tone compression applied to the final colour: `c / (c + 1)` per
/// channel on nonnegative fixed-point radiance.
pub open spec fn hdr_spec(c: int) -> int {
    tdiv(c * SCALE, c + SCALE as int)
}

impl SdfScene {
    /// Shade a primary ray: march, light with the directional source,
    /// follow one reflection bounce, then compress the range.  Misses
    /// return the compressed background exactly.
    pub fn cast_ray(&self, ray: &crate::domain::Ray) -> (c: Vec3)
        requires
            self.wf(),
            ray.origin.bounded(250_000_000),
            ray.direction.bounded(2_000),
        ensures
            c@.x == hdr_spec(cast_spec(*self, *ray, 0, None)@.x),
            c@.y == hdr_spec(cast_spec(*self, *ray, 0, None)@.y),
            c@.z == hdr_spec(cast_spec(*self, *ray, 0, None)@.z),
            (march_spec(self.nodes@, self.root_nodes@, *ray, 0, MAX_STEPS as nat, 25_000_000)
                .shape_op is None) ==> c@.x == hdr_spec(iclamp2(self.background_color@.x))
                && c@.y == hdr_spec(iclamp2(self.background_color@.y)) && c@.z == hdr_spec(
                iclamp2(self.background_color@.z)),
            c.bounded(SCALE as int),
    {
        let raw = self.cast_ray_internal(ray, 0, None);
        let x = Self::hdr_axis(raw.x);
        let y = Self::hdr_axis(raw.y);
        let z = Self::hdr_axis(raw.z);
        Vec3 { x, y, z }
    }

    /// One level of the march-and-shade recursion: ambient, shadowed
    /// diffuse and specular terms of the directional light, the
    /// material's emission and a single reflection bounce, all clamped
    /// into the radiance range.
    #[verifier::rlimit(100)]
    #[verifier::spinoff_prover]
    #[verifier::rlimit(100)]
    #[verifier::spinoff_prover]
    fn cast_ray_internal(&self, ray: &crate::domain::Ray, depth: u32, source: Option<usize>)
        -> (c: Vec3)
        requires
            self.wf(),
            ray.origin.bounded(250_000_000),
            ray.direction.bounded(2_000),
            depth <= 2,
        ensures
            c.bounded(2_000_000_000),
            c@.x >= 0 && c@.y >= 0 && c@.z >= 0,
            depth > 1 ==> c@ == (V3 { x: 0int, y: 0int, z: 0int }),
            depth <= 1 && (march_spec(self.nodes@, self.root_nodes@, *ray, 0, MAX_STEPS as nat,
                25_000_000).shape_op is None) ==> (if depth == 0 {
                c@.x == iclamp2(self.background_color@.x) && c@.y == iclamp2(
                    self.background_color@.y) && c@.z == iclamp2(self.background_color@.z)
            } else {
                c@ == (V3 { x: 0int, y: 0int, z: 0int })
            }),
            depth <= 1 && (march_spec(self.nodes@, self.root_nodes@, *ray, 0, MAX_STEPS as nat,
                25_000_000).shape_op matches Some(g) && source == Some(g)) ==> c@ == (V3 {
                x: 0int,
                y: 0int,
                z: 0int,
            }),
            c == cast_spec(*self, *ray, depth, source),
        decreases 2 - depth,
    {
        if depth > 1 {
            return Vec3 { x: 0, y: 0, z: 0 };
        }
        let hit = self.ray_march(ray, 25_000_000);
        let g = match hit.shape_op {
            None => {
                if depth == 0 {
                    return crate::scene::clamp_color(self.background_color);
                }
                return Vec3 { x: 0, y: 0, z: 0 };
            },
            Some(g) => g,
        };
        if let Some(src) = source {
            if src == g {
                return Vec3 { x: 0, y: 0, z: 0 };
            }
        }
        let tq = crate::rat::Rat::new(hit.distance as i128, SCALE as i128);
        proof {
            lemma_march_point_fits(*ray, hit.distance as int);
        }
        let p = ray.eval(&tq);
        proof {
            crate::math::lemma_tdiv_bound(ray.origin@.x * SCALE + (hit.distance as int)
                * ray.direction@.x, SCALE as int, SDF_LIMIT as int);
            crate::math::lemma_tdiv_bound(ray.origin@.y * SCALE + (hit.distance as int)
                * ray.direction@.y, SCALE as int, SDF_LIMIT as int);
            crate::math::lemma_tdiv_bound(ray.origin@.z * SCALE + (hit.distance as int)
                * ray.direction@.z, SCALE as int, SDF_LIMIT as int);
            assert(p == march_point_vec(*ray, hit.distance as int));
        }
        if !p.bounded_exec(249_000_000) {
            // the surface lies beyond the world cap; treat as unlit
            return Vec3 { x: 0, y: 0, z: 0 };
        }
        let n_unit = self.normal(&hit, &p).normalize();
        let view = ray.origin.sub(&p).normalize();
        let offset = n_unit.scale_div(2, 1000);
        proof {
            crate::vec3::lemma_tdiv_shrinks(n_unit@.x * 2, 1000);
            crate::vec3::lemma_tdiv_shrinks(n_unit@.y * 2, 1000);
            crate::vec3::lemma_tdiv_shrinks(n_unit@.z * 2, 1000);
            assert(offset == offset_spec(n_unit));
        }
        let bounced = match Self::reflection_ray(&p, &n_unit, &view, &offset) {
            Some(rr) => self.cast_ray_internal(&rr, depth + 1, Some(g)),
            None => Vec3 { x: 0, y: 0, z: 0 },
        };
        self.shade_hit(ray, g, &p, bounced)
    }

    /// The mirrored bounce ray off the surface at `p`, when the mirrored
    /// direction stays within the grid's range guards.
    fn reflection_ray(p: &Vec3, n_unit: &Vec3, view: &Vec3, offset: &Vec3) -> (r: Option<
        crate::domain::Ray>)
        requires
            p.bounded(249_000_000),
            n_unit.bounded(7_000_000_000_000i64 as int),
            view.bounded(7_000_000_000_000i64 as int),
            offset.bounded(14_000_000_000i64 as int),
        ensures
            r == reflection_ray_spec(*p, *n_unit, *view, *offset),
            r matches Some(rr) ==> rr.origin.bounded(250_000_000) && rr.direction.bounded(
                2_000),
    {
        if !(n_unit.bounded_exec(2_000) && view.bounded_exec(2_000)) {
            return None;
        }
        let nv = n_unit.dot(view);
        proof {
            crate::triangle::lemma_dot_bound(n_unit@, view@, 2_000, 2_000);
            crate::vec3::lemma_abs_mul_bound(n_unit@.x * 2, nv as int, 25_000_000);
            crate::vec3::lemma_abs_mul_bound(n_unit@.y * 2, nv as int, 25_000_000);
            crate::vec3::lemma_abs_mul_bound(n_unit@.z * 2, nv as int, 25_000_000);
            crate::vec3::lemma_tdiv_shrinks(n_unit@.x * 2 * nv, 1_000_000);
            crate::vec3::lemma_tdiv_shrinks(n_unit@.y * 2 * nv, 1_000_000);
            crate::vec3::lemma_tdiv_shrinks(n_unit@.z * 2 * nv, 1_000_000);
        }
        let refl_raw = Vec3 {
            x: Math::div_trunc((n_unit.x as i128) * 2 * nv, 1_000_000) as i64 - view.x,
            y: Math::div_trunc((n_unit.y as i128) * 2 * nv, 1_000_000) as i64 - view.y,
            z: Math::div_trunc((n_unit.z as i128) * 2 * nv, 1_000_000) as i64 - view.z,
        };
        if !refl_raw.bounded_exec(7_000_000_000_000) {
            return None;
        }
        let refl = refl_raw.normalize();
        let rn = refl.dot(n_unit);
        let reflection_orig = if rn >= 0 {
            p.add(offset)
        } else {
            p.sub(offset)
        };
        if refl.bounded_exec(2_000) && reflection_orig.bounded_exec(250_000_000) {
            Some(crate::domain::Ray { origin: reflection_orig, direction: refl })
        } else {
            None
        }
    }

    /// Shade one marched hit of chain `g` at `p` with the already-traced
    /// bounce radiance: exactly `shade_hit_spec`.
    #[verifier::rlimit(100)]
    #[verifier::spinoff_prover]
    fn shade_hit(&self, ray: &crate::domain::Ray, g: usize, p: &Vec3, bounced: Vec3) -> (c:
        Vec3)
        requires
            self.wf(),
            g < self.nodes@.len(),
            p.bounded(249_000_000),
            ray.origin.bounded(250_000_000),
            ray.direction.bounded(2_000),
            bounced.bounded(2_000_000_000),
            bounced@.x >= 0 && bounced@.y >= 0 && bounced@.z >= 0,
        ensures
            c == shade_hit_spec(*self, *ray, g as int, *p, bounced),
            c.bounded(2_000_000_000),
            c@.x >= 0 && c@.y >= 0 && c@.z >= 0,
    {
        let hr = HitResult { distance: 0, shape_op: Some(g) };
        let n_unit = self.normal(&hr, p).normalize();
        let material = self.materials[self.nodes[g].material];
        let ambient = Vec3 { x: 150, y: 150, z: 150 };
        let light = self.main_light.direction.neg().normalize();
        let view = ray.origin.sub(p).normalize();
        let half = view.add(&light).normalize();

        let albedo = if !self.is_ground(g) {
            material.kd
        } else {
            if Self::checker(p, self.width) {
                Vec3 { x: 800, y: 800, z: 800 }
            } else {
                Vec3 { x: 300, y: 300, z: 300 }
            }
        };

        // shadow: march from two grid units off the surface (strictly
        // beyond the march accuracy) toward the light
        let offset = n_unit.scale_div(2, 1000);
        proof {
            crate::vec3::lemma_tdiv_shrinks(n_unit@.x * 2, 1000);
            crate::vec3::lemma_tdiv_shrinks(n_unit@.y * 2, 1000);
            crate::vec3::lemma_tdiv_shrinks(n_unit@.z * 2, 1000);
            assert(offset == offset_spec(n_unit));
        }
        let shadow_orig = p.add(&offset);
        let shadow_ray = crate::domain::Ray::new(&shadow_orig, &light);
        let lit = if light.bounded_exec(2_000) && shadow_orig.bounded_exec(250_000_000) {
            let sh = self.ray_march(&shadow_ray, 10_000_000);
            match sh.shape_op {
                None => true,
                Some(_) => false,
            }
        } else {
            false
        };

        let mut diffuse = Vec3 { x: 0, y: 0, z: 0 };
        let mut specular = Vec3 { x: 0, y: 0, z: 0 };
        if lit && light.bounded_exec(2_000) && n_unit.bounded_exec(2_000)
            && half.bounded_exec(2_000) && view.bounded_exec(2_000) {
            proof {
                crate::triangle::lemma_dot_bound(light@, n_unit@, 2_000, 2_000);
                crate::triangle::lemma_dot_bound(half@, n_unit@, 2_000, 2_000);
            }
            let ln = light.dot(&n_unit);
            proof {
                crate::vec3::lemma_tdiv_shrinks(light@.dot(n_unit@), 1000);
            }
            let cos_l = Math::clamp_i64(Math::div_trunc(ln, 1000) as i64, 0, 1000);
            proof {
                crate::vec3::lemma_abs_mul_bound(cos_l as int, material.roughness as int, 1000);
                crate::math::lemma_tdiv_bound(cos_l * material.roughness, 1000, 1000);
            }
            let df = Math::div_trunc((cos_l as i128) * (material.roughness as i128), 1000)
                as i64;
            let base = crate::scene::clamp_color(self.main_light.color).modulate(
                &crate::scene::clamp_color(albedo));
            diffuse = crate::scene::scale_rat_clamped(&crate::scene::clamp_color(base), 1000,
                Math::clamp_i64(df, 1, 1000) as i128);

            let hn = half.dot(&n_unit);
            proof {
                crate::vec3::lemma_tdiv_shrinks(half@.dot(n_unit@), 1000);
            }
            let cos_h = Math::clamp_i64(Math::div_trunc(hn, 1000) as i64, 0, 1000);
            let p16 = pow16(cos_h);
            proof {
                crate::vec3::lemma_abs_mul_bound(p16 as int, material.metalness as int, 1000);
                crate::math::lemma_tdiv_bound(p16 * material.metalness, 1000, 1000);
            }
            let sf = Math::div_trunc((p16 as i128) * (material.metalness as i128), 1000) as i64;
            specular = crate::scene::scale_rat_clamped(&crate::scene::clamp_color(
                self.main_light.color), 1000, Math::clamp_i64(sf, 1, 1000) as i128);
        }

        // the weighted single reflection bounce
        let mut reflection = Vec3 { x: 0, y: 0, z: 0 };
        if let Some(rr) = Self::reflection_ray(p, &n_unit, &view, &offset) {
            let rn = rr.direction.dot(&n_unit);
            proof {
                crate::triangle::lemma_dot_bound(rr.direction@, n_unit@, 2_000, 2_001);
                crate::math::lemma_tdiv_bound(rr.direction@.dot(n_unit@), 1000, 13_000);
                crate::vec3::lemma_abs_mul_bound(tdiv(rr.direction@.dot(n_unit@), 1000),
                    material.metalness as int, 13_000);
                crate::vec3::lemma_tdiv_shrinks(tdiv(rr.direction@.dot(n_unit@), 1000)
                    * material.metalness, 1000);
            }
            let rf = Math::clamp_i64(Math::div_trunc((Math::div_trunc(rn, 1000) as i128)
                * (material.metalness as i128), 1000) as i64, 0, 1000);
            if rf >= 1 {
                reflection = crate::scene::scale_rat_clamped(&bounced, 1000, rf as i128);
            }
        }

        let sum1 = crate::scene::clamp_color(ambient.add(&diffuse));
        let sum2 = crate::scene::clamp_color(sum1.add(&specular));
        let sum3 = crate::scene::clamp_color(sum2.add(&crate::scene::clamp_color(
            material.emission)));
        crate::scene::clamp_color(sum3.add(&reflection))
    }

    /// The ground checkerboard: half-unit cells offset by the image
    /// width, exactly as a parity of truncated cell indices.
    fn checker(p: &Vec3, width: u32) -> (r: bool)
        requires
            p.bounded(250_000_000),
        ensures
            r == checker_spec(p@, width as int),
    {
        let cx = Math::div_trunc(p.x as i128, 2000) as i64;
        let cz = Math::div_trunc(p.z as i128, 2000) as i64;
        proof {
            crate::vec3::lemma_tdiv_shrinks(p@.x, 2000);
            crate::vec3::lemma_tdiv_shrinks(p@.z, 2000);
        }
        let k = cx + (width as i64) + cz + 1000;
        k % 2 != 0
    }

    fn hdr_axis(c: i64) -> (r: i64)
        requires
            0 <= c <= 2_000_000_000,
        ensures
            r == hdr_spec(c as int),
            0 <= r <= SCALE,
    {
        proof {
            crate::math::lemma_tdiv_bound(c * SCALE, c + SCALE as int, SCALE as int);
        }
        Math::div_trunc((c as i128) * 1000, (c as i128) + 1000) as i64
    }
}

/// Clamp into the radiance range.
pub open spec fn iclamp2(v: int) -> int {
    if v < 0 {
        0
    } else if v > 2_000_000_000 {
        2_000_000_000
    } else {
        v
    }
}


/// Componentwise vector helpers on the grid, as mathematical functions.
pub open spec fn vadd(a: Vec3, b: Vec3) -> Vec3 {
    Vec3 { x: (a@.x + b@.x) as i64, y: (a@.y + b@.y) as i64, z: (a@.z + b@.z) as i64 }
}

pub open spec fn vsub(a: Vec3, b: Vec3) -> Vec3 {
    Vec3 { x: (a@.x - b@.x) as i64, y: (a@.y - b@.y) as i64, z: (a@.z - b@.z) as i64 }
}

pub open spec fn vneg(a: Vec3) -> Vec3 {
    Vec3 { x: (-a@.x) as i64, y: (-a@.y) as i64, z: (-a@.z) as i64 }
}

/// Clamp to the closed unit range of the grid.
pub open spec fn uclamp(v: int) -> int {
    if v < 0 {
        0
    } else if v > 1000 {
        1000
    } else {
        v
    }
}

/// The marching point at parameter `t`, on the grid.
pub open spec fn march_point_vec(ray: crate::domain::Ray, t: int) -> Vec3 {
    Vec3 {
        x: tdiv(ray.origin@.x * SCALE + t * ray.direction@.x, SCALE as int) as i64,
        y: tdiv(ray.origin@.y * SCALE + t * ray.direction@.y, SCALE as int) as i64,
        z: tdiv(ray.origin@.z * SCALE + t * ray.direction@.z, SCALE as int) as i64,
    }
}

/// The two-grid-unit surface offset along the unit normal.
pub open spec fn offset_spec(n_unit: Vec3) -> Vec3 {
    Vec3 {
        x: tdiv(n_unit@.x * 2, SCALE as int) as i64,
        y: tdiv(n_unit@.y * 2, SCALE as int) as i64,
        z: tdiv(n_unit@.z * 2, SCALE as int) as i64,
    }
}

/// The reflection ray of the bounce, when every range guard of the
/// mirrored direction holds: the view direction mirrored about the unit
/// normal, re-normalised, cast from just off the surface.
pub open spec fn reflection_ray_spec(p: Vec3, n_unit: Vec3, view: Vec3, offset: Vec3) -> Option<
    crate::domain::Ray> {
    if n_unit.bounded(2_000) && view.bounded(2_000) {
        let nv = n_unit@.dot(view@);
        let refl_raw = Vec3 {
            x: (tdiv(n_unit@.x * 2 * nv, 1_000_000) - view@.x) as i64,
            y: (tdiv(n_unit@.y * 2 * nv, 1_000_000) - view@.y) as i64,
            z: (tdiv(n_unit@.z * 2 * nv, 1_000_000) - view@.z) as i64,
        };
        if refl_raw.bounded(7_000_000_000_000) {
            let refl = Vec3::normalize_spec(refl_raw);
            let rn = refl@.dot(n_unit@);
            let orig = if rn >= 0 {
                vadd(p, offset)
            } else {
                vsub(p, offset)
            };
            if refl.bounded(2_000) && orig.bounded(250_000_000) {
                Some(crate::domain::Ray { origin: orig, direction: refl })
            } else {
                None
            }
        } else {
            None
        }
    } else {
        None
    }
}

/// The colour of one shaded hit of chain `g` at point `p`, given the
/// radiance `bounced` returned by the single reflection bounce: ambient,
/// the shadowed diffuse and specular terms of the directional light, the
/// material's emission and the weighted bounce, clamped stepwise.
pub open spec fn shade_hit_spec(s: SdfScene, ray: crate::domain::Ray, g: int, p: Vec3,
    bounced: Vec3) -> Vec3 {
    let n_unit = Vec3::normalize_spec(normal_spec(s.nodes@, g, p));
    let material = s.materials@[s.nodes@[g].material as int];
    let ambient = Vec3 { x: 150i64, y: 150i64, z: 150i64 };
    let light = Vec3::normalize_spec(vneg(s.main_light.direction));
    let view = Vec3::normalize_spec(vsub(ray.origin, p));
    let half = Vec3::normalize_spec(vadd(view, light));
    let albedo = if !(s.ground_node == Some(g as usize)) {
        material.kd
    } else if checker_spec(p@, s.width as int) {
        Vec3 { x: 800i64, y: 800i64, z: 800i64 }
    } else {
        Vec3 { x: 300i64, y: 300i64, z: 300i64 }
    };
    let offset = offset_spec(n_unit);
    let shadow_orig = vadd(p, offset);
    let lit = light.bounded(2_000) && shadow_orig.bounded(250_000_000) && (march_spec(s.nodes@,
        s.root_nodes@, crate::domain::Ray { origin: shadow_orig, direction: light }, 0,
        MAX_STEPS as nat, 10_000_000).shape_op is None);
    let shaded = lit && light.bounded(2_000) && n_unit.bounded(2_000) && half.bounded(2_000)
        && view.bounded(2_000);
    let diffuse = if shaded {
        let cos_l = uclamp(tdiv(light@.dot(n_unit@), SCALE as int));
        let df = tdiv(cos_l * material.roughness, SCALE as int);
        let df = if df < 1 {
            1int
        } else if df > 1000 {
            1000int
        } else {
            df
        };
        crate::scene::scale3_spec(crate::scene::clamp3_spec(Vec3::modulate_spec(
            crate::scene::clamp3_spec(s.main_light.color), crate::scene::clamp3_spec(albedo))),
            1000, df)
    } else {
        Vec3 { x: 0i64, y: 0i64, z: 0i64 }
    };
    let specular = if shaded {
        let cos_h = uclamp(tdiv(half@.dot(n_unit@), SCALE as int));
        let sf = tdiv(pow16_frac(cos_h) * material.metalness, SCALE as int);
        let sf = if sf < 1 {
            1int
        } else if sf > 1000 {
            1000int
        } else {
            sf
        };
        crate::scene::scale3_spec(crate::scene::clamp3_spec(s.main_light.color), 1000, sf)
    } else {
        Vec3 { x: 0i64, y: 0i64, z: 0i64 }
    };
    let reflection = match reflection_ray_spec(p, n_unit, view, offset) {
        Some(rr) => {
            let rn = rr.direction@.dot(n_unit@);
            let rf = uclamp(tdiv(tdiv(rn, SCALE as int) * material.metalness, SCALE as int));
            if rf >= 1 {
                crate::scene::scale3_spec(bounced, 1000, rf)
            } else {
                Vec3 { x: 0i64, y: 0i64, z: 0i64 }
            }
        },
        None => Vec3 { x: 0i64, y: 0i64, z: 0i64 },
    };
    let sum1 = crate::scene::clamp3_spec(vadd(ambient, diffuse));
    let sum2 = crate::scene::clamp3_spec(vadd(sum1, specular));
    let sum3 = crate::scene::clamp3_spec(vadd(sum2, crate::scene::clamp3_spec(
        material.emission)));
    crate::scene::clamp3_spec(vadd(sum3, reflection))
}

/// The full recursive shading pipeline of the marcher, as a mathematical
/// function: march, shade the hit with one reflection bounce, with the
/// primary-depth background and the sentinels of the recursion.
pub open spec fn cast_spec(s: SdfScene, ray: crate::domain::Ray, depth: u32, source: Option<
    usize>) -> Vec3
    decreases 3 - depth,
{
    if depth > 1 {
        Vec3 { x: 0i64, y: 0i64, z: 0i64 }
    } else {
        let hr = march_spec(s.nodes@, s.root_nodes@, ray, 0, MAX_STEPS as nat, 25_000_000);
        match hr.shape_op {
            None => if depth == 0 {
                crate::scene::clamp3_spec(s.background_color)
            } else {
                Vec3 { x: 0i64, y: 0i64, z: 0i64 }
            },
            Some(g) => {
                if source == Some(g) {
                    Vec3 { x: 0i64, y: 0i64, z: 0i64 }
                } else {
                    let p = march_point_vec(ray, hr.distance as int);
                    if !p.bounded(249_000_000) {
                        Vec3 { x: 0i64, y: 0i64, z: 0i64 }
                    } else {
                        let n_unit = Vec3::normalize_spec(normal_spec(s.nodes@, g as int, p));
                        let view = Vec3::normalize_spec(vsub(ray.origin, p));
                        let offset = offset_spec(n_unit);
                        let bounced = match reflection_ray_spec(p, n_unit, view, offset) {
                            Some(rr) => cast_spec(s, rr, (depth + 1) as u32, Some(g)),
                            None => Vec3 { x: 0i64, y: 0i64, z: 0i64 },
                        };
                        shade_hit_spec(s, ray, g as int, p, bounced)
                    }
                }
            },
        }
    }
}

} // verus!
