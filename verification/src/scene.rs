use vstd::prelude::*;

use crate::bvh::{all_wf, indexed, sum_area2, BVH, MAX_PRIMS};
use crate::domain::{Intersection, Ray};
use crate::material::Material;
use crate::math::{abs, tdiv, Math, SCALE};
use crate::rat::Rat;
use crate::triangle::{mt_det, mt_tnum, tri_hits, Triangle};
use crate::vec3::{Vec3, V3, COLOR_LIMIT};

verus! {

/// Hard cap on the estimator's recursion depth.
pub const HARD_DEPTH_LIMIT: u32 = 64;

/// The renderer's error conditions.
#[derive(Clone, Copy, PartialEq, Eq, Structural, Debug)]
pub enum RenderError {
    /// A ray was cast before the acceleration structure was built.
    SceneNotBuilt,
    /// Rendering was started without a framebuffer attached.
    NoFramebuffer,
    /// The mesh source could not be loaded or held more than one mesh.
    MeshLoadFailed,
    /// A configuration value is out of range, or direct lighting was
    /// requested of a scene with no emissive area.
    InvalidConfig,
    /// The output image could not be written.
    IOFailure,
}

/// Termination policy of the estimator: stochastic continuation with a
/// fixed-point probability in `(0, SCALE]`, or a fixed bounce budget.
#[derive(Clone, Copy, PartialEq, Eq, Structural, Debug)]
pub enum EstimatorStrategy {
    RussianRoulette(i64),
    MaximumBounces(usize),
}

impl EstimatorStrategy {
    pub open spec fn wf(self) -> bool {
        match self {
            EstimatorStrategy::RussianRoulette(p) => 0 < p <= SCALE,
            EstimatorStrategy::MaximumBounces(n) => n >= 1,
        }
    }

    /// Whether the estimator continues into the next bounce.  With a
    /// bounce budget this is exact; under Russian roulette it is a
    /// random draw and nothing more is promised.
    pub fn determine(&self, depth: usize) -> (r: bool)
        ensures
            (*self) matches EstimatorStrategy::MaximumBounces(n) ==> r == (depth < n),
    {
        match self {
            EstimatorStrategy::RussianRoulette(probability) => {
                crate::random::sample_unit() < *probability
            },
            EstimatorStrategy::MaximumBounces(max_depth) => depth < *max_depth,
        }
    }

    /// The unbiasedness weight of a continued path: the reciprocal of
    /// the continuation probability, one for a bounce budget.
    pub fn compensation(&self) -> (w: Rat)
        requires
            self.wf(),
        ensures
            (*self) matches EstimatorStrategy::RussianRoulette(p) ==> w.num == SCALE && w.den
                == p,
            (*self) matches EstimatorStrategy::MaximumBounces(n) ==> w.num == 1 && w.den == 1,
            w.wf(),
    {
        match self {
            EstimatorStrategy::RussianRoulette(probability) => Rat::new(SCALE as i128,
                *probability as i128),
            EstimatorStrategy::MaximumBounces(_) => Rat::new(1, 1),
        }
    }
}

/// One mesh: its triangles under their own hierarchy, a material handle
/// and the aggregate (doubled) area.
pub struct Model {
    pub bvh: BVH,
    pub material: usize,
    pub area2: u128,
}

impl Model {
    pub open spec fn wf(self) -> bool {
        &&& self.bvh.wf()
        &&& self.bvh.built()
        &&& self.area2 == self.bvh.root_spec().area2()
        &&& self.area2 <= 6_000_000_000_000_000_000u128
    }

    /// Build a model from its triangle list.  The aggregate area is the
    /// exact sum of the triangle areas.
    pub fn new(triangles: Vec<Triangle>, material: usize) -> (m: Model)
        requires
            all_wf(triangles@),
            indexed(triangles@),
            1 <= triangles@.len() <= MAX_PRIMS,
        ensures
            m.wf(),
            m.material == material,
            m.area2 == sum_area2(m.bvh.primitives@, m.bvh.root_spec().ids()),
    {
        let mut bvh = BVH::new(triangles);
        bvh.build();
        let area2 = Self::root_area(&bvh);
        Model { bvh, material, area2 }
    }

    fn root_area(bvh: &BVH) -> (a: u128)
        requires
            bvh.wf(),
            bvh.built(),
        ensures
            a == bvh.root_spec().area2(),
            a <= 6_000_000_000_000_000_000u128,
    {
        match &bvh.root {
            Some(r) => {
                match &**r {
                    crate::bvh::BVHNode::Leaf { area2, .. } => *area2,
                    crate::bvh::BVHNode::Node { area2, .. } => *area2,
                }
            },
            None => 0,
        }
    }
}


/// Number of triangles in the first `k` models.
pub open spec fn flat_count(models: Seq<Model>, k: int) -> int
    decreases k,
{
    if k <= 0 {
        0
    } else {
        flat_count(models, k - 1) + models[k - 1].bvh.primitives@.len()
    }
}

/// The source of the `j`-th triangle of the flattened scene: the
/// triangle inside the model that owns global slot `j`, and that
/// model's material handle.
pub open spec fn flat_tri(models: Seq<Model>, j: int) -> (Triangle, usize)
    decreases models.len(),
{
    if models.len() == 0 {
        (models[0].bvh.primitives@[0], 0)
    } else if j < models[0].bvh.primitives@.len() {
        (models[0].bvh.primitives@[j], models[0].material)
    } else {
        flat_tri(models.drop_first(), j - models[0].bvh.primitives@.len())
    }
}

/// Global slots in the `k`-th model's range map to that model's own
/// triangles.
proof fn lemma_flat_at(models: Seq<Model>, k: int, j: int)
    requires
        0 <= k < models.len(),
        flat_count(models, k) <= j < flat_count(models, k + 1),
    ensures
        j - flat_count(models, k) < models[k].bvh.primitives@.len(),
        flat_tri(models, j) == (models[k].bvh.primitives@[j - flat_count(models, k)],
            models[k].material),
    decreases k,
{
    lemma_flat_count_nonneg(models, k);
    assert(flat_count(models, 0) == 0);
    if k == 0 {
    } else {
        lemma_flat_shift(models, k, j);
        lemma_flat_at(models.drop_first(), k - 1, j - models[0].bvh.primitives@.len());
        assert(models.drop_first()[k - 1] == models[k]);
    }
}

proof fn lemma_flat_count_nonneg(models: Seq<Model>, k: int)
    ensures
        flat_count(models, k) >= 0,
    decreases k,
{
    if k > 0 {
        lemma_flat_count_nonneg(models, k - 1);
    }
}

/// Dropping the first model shifts global slots by its triangle count.
proof fn lemma_flat_shift(models: Seq<Model>, k: int, j: int)
    requires
        1 <= k < models.len(),
        flat_count(models, k) <= j < flat_count(models, k + 1),
    ensures
        flat_tri(models, j) == flat_tri(models.drop_first(), j
            - models[0].bvh.primitives@.len()),
        flat_count(models.drop_first(), k - 1) == flat_count(models, k)
            - models[0].bvh.primitives@.len(),
        flat_count(models.drop_first(), k) == flat_count(models, k + 1)
            - models[0].bvh.primitives@.len(),
    decreases k,
{
    lemma_flat_count_drop(models, k);
    lemma_flat_count_drop(models, k + 1);
    assert(flat_count(models, 0) == 0);
    assert(flat_count(models, 1) == models[0].bvh.primitives@.len());
    lemma_count_mono(models, 1, k);
}

/// Prefix counts over the dropped sequence.
proof fn lemma_flat_count_drop(models: Seq<Model>, k: int)
    requires
        1 <= k <= models.len(),
    ensures
        flat_count(models.drop_first(), k - 1) == flat_count(models, k)
            - models[0].bvh.primitives@.len(),
    decreases k,
{
    if k == 1 {
        assert(flat_count(models.drop_first(), 0) == 0);
        assert(flat_count(models, 0) == 0);
    } else {
        lemma_flat_count_drop(models, k - 1);
        assert(models.drop_first()[k - 2] == models[k - 1]);
    }
}

/// Prefix counts are monotone.
proof fn lemma_count_mono(models: Seq<Model>, a: int, b: int)
    requires
        0 <= a <= b,
    ensures
        flat_count(models, a) <= flat_count(models, b),
    decreases b - a,
{
    if a < b {
        lemma_count_mono(models, a, b - 1);
    }
}

/// Componentwise clamp into the radiance range, as a mathematical
/// function.
pub open spec fn clamp3_spec(v: Vec3) -> Vec3 {
    Vec3 { x: iclamp(v@.x) as i64, y: iclamp(v@.y) as i64, z: iclamp(v@.z) as i64 }
}

/// Componentwise clamped-truncating scale by `den / num`, as a
/// mathematical function.
pub open spec fn scale3_spec(v: Vec3, num: int, den: int) -> Vec3 {
    Vec3 {
        x: iclamp(tdiv(v@.x * den, num)) as i64,
        y: iclamp(tdiv(v@.y * den, num)) as i64,
        z: iclamp(tdiv(v@.z * den, num)) as i64,
    }
}

/// Clamp a colour componentwise into the storable radiance range.
pub fn clamp_color(v: Vec3) -> (r: Vec3)
    ensures
        r@.x == iclamp(v@.x),
        r@.y == iclamp(v@.y),
        r@.z == iclamp(v@.z),
        r == clamp3_spec(v),
        r.bounded(COLOR_LIMIT as int),
{
    Vec3 {
        x: Math::clamp_i64(v.x, 0, COLOR_LIMIT),
        y: Math::clamp_i64(v.y, 0, COLOR_LIMIT),
        z: Math::clamp_i64(v.z, 0, COLOR_LIMIT),
    }
}

/// Clamp into `[0, COLOR_LIMIT]`.
pub open spec fn iclamp(v: int) -> int {
    if v < 0 {
        0
    } else if v > COLOR_LIMIT {
        COLOR_LIMIT as int
    } else {
        v
    }
}

/// Scale a colour by the exact rational `num / den`, truncating, then
/// clamp into the radiance range.
pub fn scale_rat_clamped(v: &Vec3, num: i128, den: i128) -> (r: Vec3)
    requires
        v.bounded(COLOR_LIMIT as int),
        1 <= num <= 0x7fff_ffff_ffff_ffffi128,
        1 <= den <= 0x7fff_ffff_ffff_ffffi128,
    ensures
        r@.x == iclamp(tdiv(v@.x * den, num as int)),
        r@.y == iclamp(tdiv(v@.y * den, num as int)),
        r@.z == iclamp(tdiv(v@.z * den, num as int)),
        r == scale3_spec(*v, num as int, den as int),
        r.bounded(COLOR_LIMIT as int),
{
    let x = scale_rat_axis(v.x, num, den);
    let y = scale_rat_axis(v.y, num, den);
    let z = scale_rat_axis(v.z, num, den);
    Vec3 { x, y, z }
}

fn scale_rat_axis(v: i64, num: i128, den: i128) -> (r: i64)
    requires
        abs(v as int) <= COLOR_LIMIT as int,
        1 <= num <= 0x7fff_ffff_ffff_ffffi128,
        1 <= den <= 0x7fff_ffff_ffff_ffffi128,
    ensures
        r == iclamp(tdiv(v as int * den, num as int)),
{
    proof {
        crate::vec3::lemma_abs_mul_bound(v as int, den as int,
            0x7fff_ffff_ffff_ffffi128 as int);
        crate::vec3::lemma_tdiv_shrinks(v as int * den, num as int);
    }
    let q = Math::div_trunc((v as i128) * den, num);
    if q < 0 {
        0
    } else if q > COLOR_LIMIT as i128 {
        COLOR_LIMIT
    } else {
        q as i64
    }
}


/// One clamped-truncating scaling step of the radiance pipeline:
/// multiply by `den / num` on the grid and clamp.
pub open spec fn step_scale(v: int, num: int, den: int) -> int {
    iclamp(tdiv(v * den, num))
}

/// The direct-lighting term for one colour channel, exactly as the
/// estimator computes it: the light's (clamped) emission filtered by the
/// reflectance, scaled by both cosines, by the inverse square of the
/// distance, and divided by the light sample's density; zero when the
/// light is occluded.  `ct` and `ctp` are grid cosines scaled by
/// `SCALE^2`, `d2` the squared distance in grid units.
pub open spec fn direct_term_spec(e: int, f: int, ct: int, ctp: int, d2: int, pn: int,
    pd: int) -> int {
    let filtered = iclamp(tdiv(iclamp(e) * f, SCALE as int));
    let ct_scaled = step_scale(filtered, 1_000_000, ct);
    let ctp_scaled = step_scale(ct_scaled, 1_000_000, ctp);
    let falloff = step_scale(ctp_scaled, d2, 1_000_000);
    step_scale(falloff, pn, pd)
}

/// The indirect term for one colour channel: the recursive radiance
/// filtered by the reflectance, scaled by the sample cosine, divided by
/// the sampler density and weighted by the estimator's compensation.
pub open spec fn indirect_term_spec(next: int, f: int, cs: int, pn: int, pd: int, wn: int,
    wd: int) -> int {
    let filtered = iclamp(tdiv(iclamp(next) * f, SCALE as int));
    let cs_scaled = step_scale(filtered, 1_000_000, cs);
    let over_pdf = step_scale(cs_scaled, pn, pd);
    step_scale(over_pdf, wd, wn)
}

/// Compute the direct-lighting contribution of one unoccluded light
/// sample, exactly per channel.
pub fn direct_light_term(emit: &Vec3, f_r: &Vec3, cos_theta: i128, cos_theta_prime: i128,
    d2: i128, pdf: &Rat) -> (r: Vec3)
    requires
        f_r.bounded(SCALE as int),
        1 <= cos_theta <= 0x7fff_ffff_ffff_ffffi128,
        1 <= cos_theta_prime <= 0x7fff_ffff_ffff_ffffi128,
        1 <= d2 <= 0x7fff_ffff_ffff_ffffi128,
        1 <= pdf.num <= 0x7fff_ffff_ffff_ffffi128,
        1 <= pdf.den <= 0x7fff_ffff_ffff_ffffi128,
    ensures
        r@.x == direct_term_spec(emit@.x, f_r@.x, cos_theta as int, cos_theta_prime as int,
            d2 as int, pdf.num as int, pdf.den as int),
        r@.y == direct_term_spec(emit@.y, f_r@.y, cos_theta as int, cos_theta_prime as int,
            d2 as int, pdf.num as int, pdf.den as int),
        r@.z == direct_term_spec(emit@.z, f_r@.z, cos_theta as int, cos_theta_prime as int,
            d2 as int, pdf.num as int, pdf.den as int),
        r.bounded(COLOR_LIMIT as int),
        r@.x >= 0 && r@.y >= 0 && r@.z >= 0,
{
    let lit = clamp_color(*emit).modulate(f_r);
    let lit = clamp_color(lit);
    let lit = scale_rat_clamped(&lit, 1_000_000, cos_theta);
    let lit = scale_rat_clamped(&lit, 1_000_000, cos_theta_prime);
    // distances are in thousandths: d2 carries a factor SCALE^2
    // against the unit-based inverse-square law
    let lit = scale_rat_clamped(&lit, d2, 1_000_000);
    scale_rat_clamped(&lit, pdf.num, pdf.den)
}

/// Compute the indirect contribution of one bounce, exactly per channel.
pub fn indirect_light_term(next: &Vec3, f_r: &Vec3, cos_s: i128, pdf: &Rat, w: &Rat) -> (r:
    Vec3)
    requires
        f_r.bounded(SCALE as int),
        1 <= cos_s <= 0x7fff_ffff_ffff_ffffi128,
        1 <= pdf.num <= 0x7fff_ffff_ffff_ffffi128,
        1 <= pdf.den <= 0x7fff_ffff_ffff_ffffi128,
        1 <= w.num <= 0x7fff_ffff_ffff_ffffi128,
        1 <= w.den <= 0x7fff_ffff_ffff_ffffi128,
    ensures
        r@.x == indirect_term_spec(next@.x, f_r@.x, cos_s as int, pdf.num as int,
            pdf.den as int, w.num as int, w.den as int),
        r@.y == indirect_term_spec(next@.y, f_r@.y, cos_s as int, pdf.num as int,
            pdf.den as int, w.num as int, w.den as int),
        r@.z == indirect_term_spec(next@.z, f_r@.z, cos_s as int, pdf.num as int,
            pdf.den as int, w.num as int, w.den as int),
        r.bounded(COLOR_LIMIT as int),
        r@.x >= 0 && r@.y >= 0 && r@.z >= 0,
{
    let c = clamp_color(*next).modulate(f_r);
    let c = clamp_color(c);
    let c = scale_rat_clamped(&c, 1_000_000, cos_s);
    let c = scale_rat_clamped(&c, pdf.num, pdf.den);
    scale_rat_clamped(&c, w.den, w.num)
}

/// Add one sample's share of the per-pixel mean: the sample divided by
/// the sample count (truncating), accumulated and clamped on the grid.
pub fn accumulate_sample(acc: &Vec3, sample: &Vec3, spp: u32) -> (r: Vec3)
    requires
        spp >= 1,
        acc.bounded(COLOR_LIMIT as int),
        sample.bounded(2 * COLOR_LIMIT as int),
    ensures
        r@.x == iclamp(acc@.x + tdiv(sample@.x, spp as int)),
        r@.y == iclamp(acc@.y + tdiv(sample@.y, spp as int)),
        r@.z == iclamp(acc@.z + tdiv(sample@.z, spp as int)),
        r.bounded(COLOR_LIMIT as int),
{
    proof {
        crate::vec3::lemma_tdiv_shrinks(sample@.x, spp as int);
        crate::vec3::lemma_tdiv_shrinks(sample@.y, spp as int);
        crate::vec3::lemma_tdiv_shrinks(sample@.z, spp as int);
    }
    let sx = Math::div_trunc(sample.x as i128, spp as i128) as i64;
    let sy = Math::div_trunc(sample.y as i128, spp as i128) as i64;
    let sz = Math::div_trunc(sample.z as i128, spp as i128) as i64;
    clamp_color(Vec3 { x: acc.x + sx, y: acc.y + sy, z: acc.z + sz })
}

/// The offline path-traced scene: models over a shared material arena,
/// with one flat triangle hierarchy for closest-hit queries.
pub struct Scene {
    pub width: u32,
    pub height: u32,
    /// Vertical field of view in thousandths of a degree.
    pub fov: i64,
    pub camera_background_color: Vec3,
    pub estimator_strategy: EstimatorStrategy,
    pub sample_per_pixel: u32,
    pub materials: Vec<Material>,
    pub models: Vec<Model>,
    pub bvh: Option<BVH>,
}

impl Scene {
    pub open spec fn wf(self) -> bool {
        &&& self.estimator_strategy.wf()
        &&& self.models@.len() <= 10_000
        &&& forall|i: int| 0 <= i < self.materials@.len() ==> (#[trigger] self.materials@[i]).wf()
        &&& forall|i: int|
            0 <= i < self.models@.len() ==> (#[trigger] self.models@[i]).wf()
                && self.models@[i].material < self.materials@.len()
        &&& match self.bvh {
            Some(b) => b.wf() && b.built() && forall|i: int|
                0 <= i < b.primitives@.len() ==> (#[trigger] b.primitives@[i]).material
                    < self.materials@.len(),
            None => true,
        }
    }

    pub fn new(
        width: u32,
        height: u32,
        fov: i64,
        camera_background_color: Vec3,
        estimator_strategy: EstimatorStrategy,
        sample_per_pixel: u32,
    ) -> (s: Scene)
        requires
            estimator_strategy.wf(),
        ensures
            s.wf(),
            s.width == width && s.height == height && s.fov == fov,
            s.camera_background_color == camera_background_color,
            s.estimator_strategy == estimator_strategy,
            s.sample_per_pixel == sample_per_pixel,
            s.models@.len() == 0 && s.materials@.len() == 0,
            s.bvh is None,
    {
        Scene {
            width,
            height,
            fov,
            camera_background_color,
            estimator_strategy,
            sample_per_pixel,
            materials: Vec::new(),
            models: Vec::new(),
            bvh: None,
        }
    }

    /// The configuration is acceptable exactly when the dimensions and
    /// sample count are positive, the field of view is a proper angle
    /// and the estimator policy is in range.
    pub fn validate(&self) -> (r: Result<(), RenderError>)
        ensures
            r is Ok <==> (self.width > 0 && self.height > 0 && self.sample_per_pixel > 0 && 0
                < self.fov < 180_000 && self.estimator_strategy.wf()),
            r is Err ==> r == Result::<(), RenderError>::Err(RenderError::InvalidConfig),
    {
        let strategy_ok = match self.estimator_strategy {
            EstimatorStrategy::RussianRoulette(p) => 0 < p && p <= SCALE,
            EstimatorStrategy::MaximumBounces(n) => n >= 1,
        };
        if self.width > 0 && self.height > 0 && self.sample_per_pixel > 0 && 0 < self.fov
            && self.fov < 180_000 && strategy_ok {
            Ok(())
        } else {
            Err(RenderError::InvalidConfig)
        }
    }

    /// Register a material, returning its handle.
    pub fn add_material(&mut self, m: Material) -> (idx: usize)
        requires
            old(self).wf(),
            m.wf(),
        ensures
            final(self).wf(),
            idx == old(self).materials@.len(),
            final(self).materials@ == old(self).materials@.push(m),
            final(self).models == old(self).models,
            final(self).bvh == old(self).bvh,
            final(self).camera_background_color == old(self).camera_background_color,
            final(self).estimator_strategy == old(self).estimator_strategy,
    {
        let idx = self.materials.len();
        self.materials.push(m);
        idx
    }

    /// Add a model to the scene (before the hierarchy is built).
    pub fn add(&mut self, model: Model)
        requires
            old(self).wf(),
            old(self).models@.len() < 10_000,
            model.wf(),
            model.material < old(self).materials@.len(),
        ensures
            final(self).wf(),
            final(self).models@ == old(self).models@.push(model),
            final(self).materials == old(self).materials,
            final(self).bvh == old(self).bvh,
            final(self).camera_background_color == old(self).camera_background_color,
            final(self).estimator_strategy == old(self).estimator_strategy,
    {
        self.models.push(model);
    }

    /// Build the scene-level hierarchy: one flat structure over every
    /// model's triangles, re-identified by their global slot.
    pub fn build_bvh(&mut self)
        requires
            old(self).wf(),
            1 <= flat_count(old(self).models@, old(self).models@.len() as int) <= MAX_PRIMS,
        ensures
            final(self).wf(),
            final(self).models == old(self).models,
            final(self).materials == old(self).materials,
            final(self).camera_background_color == old(self).camera_background_color,
            final(self).estimator_strategy == old(self).estimator_strategy,
            final(self).width == old(self).width && final(self).height == old(self).height,
            final(self).sample_per_pixel == old(self).sample_per_pixel,
            final(self).bvh matches Some(b) && b.built() && b.primitives@.len() == flat_count(
                old(self).models@, old(self).models@.len() as int) && forall|j: int|
                0 <= j < b.primitives@.len() ==> (#[trigger] b.primitives@[j]).v0 == flat_tri(
                    old(self).models@, j).0.v0 && b.primitives@[j].v1 == flat_tri(
                    old(self).models@, j).0.v1 && b.primitives@[j].v2 == flat_tri(
                    old(self).models@, j).0.v2 && b.primitives@[j].material == flat_tri(
                    old(self).models@, j).1 && b.primitives@[j].id == j,
    {
        let mut tris: Vec<Triangle> = Vec::new();
        let mut mi: usize = 0;
        let n = self.models.len();
        while mi < n
            invariant
                self.wf(),
                n == self.models@.len(),
                mi <= n,
                all_wf(tris@),
                indexed(tris@),
                flat_count(self.models@, n as int) <= MAX_PRIMS,
                tris@.len() == flat_count(self.models@, mi as int),
                forall|i: int| 0 <= i < tris@.len() ==> (#[trigger] tris@[i]).material
                    < self.materials@.len(),
                forall|j: int|
                    0 <= j < tris@.len() ==> (#[trigger] tris@[j]).v0 == flat_tri(self.models@,
                        j).0.v0 && tris@[j].v1 == flat_tri(self.models@, j).0.v1 && tris@[j].v2
                        == flat_tri(self.models@, j).0.v2 && tris@[j].material == flat_tri(
                        self.models@, j).1,
            decreases n - mi,
        {
            proof {
                lemma_count_mono(self.models@, mi + 1, n as int);
            }
            let model = &self.models[mi];
            let mtl = model.material;
            let prims = &model.bvh.primitives;
            let mut ti: usize = 0;
            while ti < prims.len()
                invariant
                    self.wf(),
                    n == self.models@.len(),
                    mi < n,
                    model == &self.models@[mi as int],
                    prims@ == self.models@[mi as int].bvh.primitives@,
                    mtl == self.models@[mi as int].material,
                    all_wf(prims@),
                    mtl < self.materials@.len(),
                    ti <= prims@.len(),
                    all_wf(tris@),
                    indexed(tris@),
                    flat_count(self.models@, n as int) <= MAX_PRIMS,
                    flat_count(self.models@, mi + 1) <= MAX_PRIMS,
                    tris@.len() == flat_count(self.models@, mi as int) + ti,
                    forall|i: int| 0 <= i < tris@.len() ==> (#[trigger] tris@[i]).material
                        < self.materials@.len(),
                    forall|j: int|
                        0 <= j < tris@.len() ==> (#[trigger] tris@[j]).v0 == flat_tri(
                            self.models@, j).0.v0 && tris@[j].v1 == flat_tri(self.models@,
                            j).0.v1 && tris@[j].v2 == flat_tri(self.models@, j).0.v2
                            && tris@[j].material == flat_tri(self.models@, j).1,
                decreases prims@.len() - ti,
            {
                let t = &prims[ti];
                let nt = Triangle::new(&t.v0, &t.v1, &t.v2, mtl, tris.len());
                tris.push(nt);
                proof {
                    lemma_flat_at(self.models@, mi as int, flat_count(self.models@, mi as int)
                        + ti);
                }
                ti = ti + 1;
            }
            mi = mi + 1;
        }
        let mut bvh = BVH::new(tris);
        bvh.build();
        self.bvh = Some(bvh);
    }


    /// The colour belongs to the ray's closest primitive hit: some hit
    /// primitive no farther than every other hit primitive whose shading
    /// contract produced the colour — in particular, if its material is
    /// emissive the colour is exactly that emission.
    pub open spec fn shades_closest(self, b: BVH, ray: Ray, c: Vec3) -> bool {
        exists|i: int|
            #![auto]
            0 <= i < b.primitives@.len() && tri_hits(b.primitives@[i], ray) && (forall|j: int|
                0 <= j < b.primitives@.len() && tri_hits(#[trigger] b.primitives@[j], ray)
                    ==> crate::rat::frac_le(mt_tnum(b.primitives@[i], ray), mt_det(
                    b.primitives@[i], ray), mt_tnum(b.primitives@[j], ray), mt_det(
                    b.primitives@[j], ray)))
                && b.primitives@[i].material < self.materials@.len() && ((
            self.materials@[b.primitives@[i].material as int].emission_spec()@ != (V3 {
                x: 0int,
                y: 0int,
                z: 0int,
            })) ==> c == self.materials@[b.primitives@[i].material as int].emission_spec())
    }

    /// Cast a primary ray: before the hierarchy is built this fails with
    /// `SceneNotBuilt`; a miss returns the background colour unchanged;
    /// a hit is shaded by the estimator at the closest primitive.
    pub fn cast_ray(&self, ray: &Ray) -> (r: Result<(Vec3, bool), RenderError>)
        requires
            self.wf(),
            ray.wf(),
        ensures
            self.bvh is None ==> r == Result::<(Vec3, bool), RenderError>::Err(
                RenderError::SceneNotBuilt),
            self.bvh matches Some(b) && !(exists|i: int|
                0 <= i < b.primitives@.len() && crate::triangle::tri_hits(b.primitives@[i],
                    *ray)) ==> r == Result::<(Vec3, bool), RenderError>::Ok(
                (self.camera_background_color, false)),
            r matches Ok(p) ==> p.1 == (self.bvh matches Some(b) && exists|i: int|
                0 <= i < b.primitives@.len() && crate::triangle::tri_hits(b.primitives@[i],
                    *ray)),
            self.bvh matches Some(b) ==> (r matches Ok(p) ==> (p.1 ==> self.shades_closest(b,
                *ray, p.0) && p.0@.x >= 0 && p.0@.y >= 0 && p.0@.z >= 0 && p.0.bounded(2
                * COLOR_LIMIT as int))),
    {
        let bvh = match &self.bvh {
            None => {
                return Err(RenderError::SceneNotBuilt);
            },
            Some(b) => b,
        };
        let inter = bvh.intersect(ray);
        if !inter.hit {
            return Ok((self.camera_background_color, false));
        }
        let re_dir = ray.direction.neg();
        match self.shade(&inter, &re_dir, 0) {
            Ok(c) => {
                proof {
                    let b = self.bvh->Some_0;
                    let i = inter.obj->Some_0 as int;
                    assert(0 <= i < b.primitives@.len() && tri_hits(b.primitives@[i], *ray));
                    assert(self.shades_closest(b, *ray, c));
                }
                Ok((c, true))
            },
            Err(e) => Err(e),
        }
    }

    /// Radiance leaving the hit point toward `wo`.  An emissive surface
    /// returns its emission exactly.  Otherwise one light sample drives
    /// the direct term and the estimator policy decides whether an
    /// indirect bounce is taken; the call fails with `InvalidConfig`
    /// exactly when the scene has no emissive area at all.
    pub fn shade(&self, hit: &Intersection, wo: &Vec3, depth: usize) -> (r: Result<Vec3,
        RenderError>)
        requires
            self.wf(),
            self.bvh is Some,
            hit.hit,
            hit.material matches Some(m) && m < self.materials@.len(),
            hit.coords.bounded(601_000),
            hit.normal.bounded(3_000_000_000_000),
            wo.bounded(602_000),
            depth <= HARD_DEPTH_LIMIT as int,
        ensures
            (self.materials@[hit.material->Some_0 as int].emission_spec()@ != (V3 { x: 0int,
                y: 0int, z: 0int })) ==> r == Result::<Vec3, RenderError>::Ok(
                self.materials@[hit.material->Some_0 as int].emission_spec()),
            (self.materials@[hit.material->Some_0 as int].emission_spec()@ == (V3 { x: 0int,
                y: 0int, z: 0int })) ==> ((r is Err) <==> emissive_area2(self.materials@,
                self.models@, self.models@.len() as int) == 0),
            r is Err ==> r == Result::<Vec3, RenderError>::Err(RenderError::InvalidConfig),
            r matches Ok(c) ==> c.bounded(2 * COLOR_LIMIT as int) && c@.x >= 0 && c@.y >= 0
                && c@.z >= 0,
        decreases HARD_DEPTH_LIMIT as int - depth,
    {
        let mat_idx = match hit.material {
            Some(m) => m,
            None => 0,
        };
        let material = &self.materials[mat_idx];
        if material.has_emission() {
            return Ok(material.get_emission());
        }
        let (inter_light, light_pdf) = match self.sample_light() {
            Ok(s) => s,
            Err(e) => {
                return Err(e);
            },
        };
        let n_unit = hit.normal.normalize();
        let mut l_dir = Vec3 { x: 0, y: 0, z: 0 };
        if inter_light.coords.bounded_exec(601_000) && inter_light.normal.bounded_exec(
            3_000_000_000_000) {
            let ws_raw = inter_light.coords.sub(&hit.coords);
            proof {
                crate::triangle::lemma_dot_bound(ws_raw@, ws_raw@, 1_202_000, 1_202_000);
            }
            let d2 = ws_raw.norm2();
            if d2 > 0 {
                let ws = ws_raw.normalize();
                let cos_theta = ws.dot(&n_unit);
                let light_n_unit = inter_light.normal.normalize();
                let nws = ws.neg();
                let cos_theta_prime = nws.dot(&light_n_unit);
                proof {
                    crate::triangle::lemma_dot_bound(ws@, n_unit@, 2_000, 3_000_000_000_000);
                    crate::triangle::lemma_dot_bound(nws@, light_n_unit@, 2_000,
                        3_000_000_000_000);
                }
                if cos_theta > 0 && cos_theta_prime > 0 {
                    let shadow = self.shadow_blocked(&hit.coords, &ws, d2);
                    if !shadow {
                        let f_r = material.eval(&ws, wo, &n_unit);
                        l_dir = direct_light_term(&inter_light.emit, &f_r, cos_theta,
                            cos_theta_prime, d2, &light_pdf);
                    }
                }
            }
        }
        let mut l_indir = Vec3 { x: 0, y: 0, z: 0 };
        if depth < (HARD_DEPTH_LIMIT as usize) && self.estimator_strategy.determine(depth) {
            let wi = wo.neg();
            let sample_dir = material.sample(&wi, &hit.normal).normalize();
            let bounce = Ray::new(&hit.coords, &sample_dir);
            let bvh = match &self.bvh {
                Some(b) => b,
                None => {
                    return Err(RenderError::InvalidConfig);
                },
            };
            let indirect = bvh.intersect(&bounce);
            if indirect.hit {
                let ind_mat = match indirect.material {
                    Some(m) => m,
                    None => 0,
                };
                if ind_mat < self.materials.len() && !self.materials[ind_mat].has_emission() {
                    match self.shade(&indirect, &sample_dir.neg(), depth + 1) {
                        Ok(next) => {
                            let f_r = material.eval(&sample_dir, wo, &n_unit);
                            let cos_s = n_unit.dot(&sample_dir);
                            proof {
                                crate::triangle::lemma_dot_bound(n_unit@, sample_dir@,
                                    3_000_000_000_000, 2_000);
                            }
                            if cos_s > 0 {
                                let pdf = material.pdf(&wi, &sample_dir, &n_unit);
                                let w = self.estimator_strategy.compensation();
                                l_indir = indirect_light_term(&next, &f_r, cos_s, &pdf, &w);
                            }
                        },
                        Err(e) => {
                            return Err(e);
                        },
                    }
                }
            }
        }
        Ok(l_dir.add(&l_indir))
    }

    /// Whether the segment from `from` toward unit direction `ws` is
    /// blocked before the squared distance `d2` (with one grid unit of
    /// slack, mirroring the reference tolerance): exactly, some closest
    /// hit lies strictly before `(sqrt(d2) - 1) / SCALE`.
    fn shadow_blocked(&self, from: &Vec3, ws: &Vec3, d2: i128) -> (blocked: bool)
        requires
            self.wf(),
            self.bvh is Some,
            from.bounded(601_000),
            ws.bounded(2_000),
            0 <= d2 <= 5_000_000_000_000i128,
        ensures
            blocked == occluded_before(self.bvh->Some_0.primitives@, Ray {
                origin: *from,
                direction: *ws,
            }, crate::math::sqrt_floor(d2 as nat) as int),
    {
        let bvh = match &self.bvh {
            Some(b) => b,
            None => {
                return false;
            },
        };
        let shadow_ray = Ray::new(from, ws);
        let occ = bvh.intersect(&shadow_ray);
        let l = Math::isqrt(d2 as u128);
        proof {
            assert(l <= 3_000_000) by (nonlinear_arith)
                requires
                    l * l <= d2,
                    d2 <= 5_000_000_000_000i128,
            ;
        }
        match occ.distance {
            None => false,
            Some(t) => {
                // occluded iff t < (|light - hit| - 1) / SCALE, exactly
                proof {
                    crate::vec3::lemma_abs_mul_bound((l as int) - 1, t.den as int,
                        6_000_000_000_000_000_000i64 as int);
                }
                let lhs = t.num * 1000i128;
                let rhs = ((l as i128) - 1) * t.den;
                let blocked = lhs < rhs;
                proof {
                    let tris = bvh.primitives@;
                    let ray = Ray { origin: *from, direction: *ws };
                    let i = occ.obj->Some_0 as int;
                    if blocked {
                        assert(occluded_before(tris, ray, l as int));
                    } else {
                        assert forall|k: int|
                            !(0 <= k < tris.len() && tri_hits(#[trigger] tris[k], ray) && (
                            forall|j: int|
                                0 <= j < tris.len() && tri_hits(#[trigger] tris[j], ray)
                                    ==> crate::rat::frac_le(mt_tnum(tris[k], ray), mt_det(
                                    tris[k], ray), mt_tnum(tris[j], ray), mt_det(tris[j],
                                    ray))) && mt_tnum(tris[k], ray) * 1000 < (l as int - 1)
                                * mt_det(tris[k], ray)) by {
                            if 0 <= k < tris.len() && tri_hits(tris[k], ray) && (forall|j: int|
                                0 <= j < tris.len() && tri_hits(#[trigger] tris[j], ray)
                                    ==> crate::rat::frac_le(mt_tnum(tris[k], ray), mt_det(
                                    tris[k], ray), mt_tnum(tris[j], ray), mt_det(tris[j],
                                    ray))) {
                                lemma_frac_lt_transfer(mt_tnum(tris[k], ray), mt_det(tris[k],
                                    ray), t.num as int, t.den as int, l as int - 1);
                            }
                        }
                    }
                }
                blocked
            },
        }
    }

    /// A light sample is valid when some emissive model of positive area
    /// produced it: the record is a uniform-area sample of that model's
    /// triangles, its `emit` field holds that model's emission, and the
    /// density is exactly one over that model's area.
    pub open spec fn light_sample_ok(self, s: (Intersection, Rat)) -> bool {
        exists|k: int|
            #![auto]
            0 <= k < self.models@.len() && is_emissive(self.materials@, self.models@, k)
                && self.models@[k].area2 >= 1 && crate::bvh::sample_from(
                self.models@[k].bvh.primitives@, self.models@[k].bvh.root_spec().ids(), s.0)
                && s.0.emit == self.materials@[self.models@[k].material as int].emission_spec()
                && s.1.num == 2 && s.1.den == self.models@[k].area2
    }

    /// Sample one point on the emissive geometry, weighted by area.  The
    /// scene must have emissive area; otherwise this is exactly the
    /// `InvalidConfig` failure.
    pub fn sample_light(&self) -> (r: Result<(Intersection, Rat), RenderError>)
        requires
            self.wf(),
        ensures
            (r is Err) <==> emissive_area2(self.materials@, self.models@,
                self.models@.len() as int) == 0,
            r is Err ==> r == Result::<(Intersection, Rat), RenderError>::Err(
                RenderError::InvalidConfig),
            r matches Ok(s) ==> s.0.hit && s.0.wf() && self.light_sample_ok(s) && s.1.num == 2
                && 1 <= s.1.den <= 6_000_000_000_000_000_000,
    {
        let n = self.models.len();
        let mut total: u128 = 0;
        let mut i: usize = 0;
        while i < n
            invariant
                self.wf(),
                n == self.models@.len(),
                i <= n,
                total == emissive_area2(self.materials@, self.models@, i as int),
                total <= 6_000_000_000_000_000_000u128 * (i as u128),
            decreases n - i,
        {
            proof {
                lemma_emissive_cap(self.materials@, self.models@, i as int);
                assert(6_000_000_000_000_000_000u128 * ((i + 1) as u128)
                    == 6_000_000_000_000_000_000u128 * (i as u128)
                    + 6_000_000_000_000_000_000u128) by (nonlinear_arith);
            }
            let model = &self.models[i];
            if self.materials[model.material].has_emission() {
                total = total + model.area2;
            }
            i = i + 1;
        }
        if total == 0 {
            return Err(RenderError::InvalidConfig);
        }
        proof {
            assert(total <= 60_000_000_000_000_000_000_000u128) by (nonlinear_arith)
                requires
                    total <= 6_000_000_000_000_000_000u128 * (n as u128),
                    n <= 10_000,
            ;
        }
        let u = crate::random::sample_unit();
        proof {
            assert((u as u128) * total <= 60_000_000_000_000_000_000_000_000u128)
                by (nonlinear_arith)
                requires
                    0 <= u <= 1000,
                    total <= 60_000_000_000_000_000_000_000u128,
            ;
        }
        let p = (u as u128) * total / 1000;
        let mut cum: u128 = 0;
        let mut i: usize = 0;
        while i < n
            invariant
                self.wf(),
                n == self.models@.len(),
                i <= n,
                total == emissive_area2(self.materials@, self.models@, n as int),
                total >= 1,
                total <= 60_000_000_000_000_000_000_000u128,
                cum <= total,
                emissive_area2(self.materials@, self.models@, n as int) != 0,
            decreases n - i,
        {
            let model = &self.models[i];
            if self.materials[model.material].has_emission() {
                cum = if cum + model.area2 <= total {
                    cum + model.area2
                } else {
                    total
                };
                if cum >= p || i + 1 == n {
                    if Self::model_has_area(model) {
                        let (mut inter, pdf) = model.bvh.sample();
                        let ghost pre = inter;
                        inter.emit = self.materials[model.material].get_emission();
                        proof {
                            let tris = self.models@[i as int].bvh.primitives@;
                            let rids = self.models@[i as int].bvh.root_spec().ids();
                            let k2 = choose|k2: int|
                                0 <= k2 < rids.len() && (#[trigger] rids[k2]) < tris.len()
                                    && crate::triangle::valid_tri_sample(
                                    tris[rids[k2] as int], pre.coords) && pre.normal
                                    == tris[rids[k2] as int].normal;
                            assert(crate::triangle::valid_tri_sample(tris[rids[k2] as int],
                                inter.coords));
                            assert(crate::bvh::sample_from(tris, rids, inter));
                            assert(is_emissive(self.materials@, self.models@, i as int));
                            assert(self.light_sample_ok((inter, pdf)));
                        }
                        return Ok((inter, pdf));
                    }
                }
            }
            i = i + 1;
        }
        // Some emissive model exists but none with positive area was
        // selected; fall back to the first emissive one for a
        // well-defined record.
        let mut i: usize = 0;
        while i < n
            invariant
                self.wf(),
                n == self.models@.len(),
                i <= n,
                emissive_area2(self.materials@, self.models@, n as int) != 0,
                forall|k: int| 0 <= k < i ==> !is_emissive(self.materials@, self.models@, k)
                    || (#[trigger] self.models@[k]).area2 == 0,
            decreases n - i,
        {
            let model = &self.models[i];
            if self.materials[model.material].has_emission() && Self::model_has_area(model) {
                let (mut inter, pdf) = model.bvh.sample();
                let ghost pre = inter;
                inter.emit = self.materials[model.material].get_emission();
                proof {
                    let tris = self.models@[i as int].bvh.primitives@;
                    let rids = self.models@[i as int].bvh.root_spec().ids();
                    let k2 = choose|k2: int|
                        0 <= k2 < rids.len() && (#[trigger] rids[k2]) < tris.len()
                            && crate::triangle::valid_tri_sample(
                            tris[rids[k2] as int], pre.coords) && pre.normal
                            == tris[rids[k2] as int].normal;
                    assert(crate::triangle::valid_tri_sample(tris[rids[k2] as int],
                        inter.coords));
                    assert(crate::bvh::sample_from(tris, rids, inter));
                    assert(is_emissive(self.materials@, self.models@, i as int));
                    assert(self.light_sample_ok((inter, pdf)));
                }
                return Ok((inter, pdf));
            }
            i = i + 1;
        }
        proof {
            lemma_all_zero_area(self.materials@, self.models@, n as int);
        }
        Err(RenderError::InvalidConfig)
    }

    fn model_has_area(model: &Model) -> (r: bool)
        requires
            model.wf(),
        ensures
            r == (model.bvh.root_spec().area2() >= 1),
    {
        Model::root_area(&model.bvh) >= 1
    }
}

/// Some hit primitive that is at least as close as every other hit lies
/// strictly before the parameter `(l - 1) / SCALE` along the ray.
pub open spec fn occluded_before(tris: Seq<Triangle>, ray: Ray, l: int) -> bool {
    exists|i: int|
        #![auto]
        0 <= i < tris.len() && tri_hits(tris[i], ray) && (forall|j: int|
            0 <= j < tris.len() && tri_hits(#[trigger] tris[j], ray) ==> crate::rat::frac_le(
                mt_tnum(tris[i], ray), mt_det(tris[i], ray), mt_tnum(tris[j], ray), mt_det(
                    tris[j], ray))) && mt_tnum(tris[i], ray) * 1000 < (l - 1) * mt_det(tris[i],
            ray)
}

/// Two fractions equal in value compare identically against any third
/// fraction.
proof fn lemma_frac_lt_transfer(n1: int, d1: int, n2: int, d2: int, lim: int)
    by (nonlinear_arith)
    requires
        d1 >= 1,
        d2 >= 1,
        crate::rat::frac_le(n1, d1, n2, d2),
        crate::rat::frac_le(n2, d2, n1, d1),
    ensures
        (n1 * 1000 < lim * d1) <==> (n2 * 1000 < lim * d2),
{
    assert(n1 * d2 == n2 * d1);
    assert(n1 * 1000 * d2 == n2 * 1000 * d1);
}

/// Whether model `k` uses an emissive material.
pub open spec fn is_emissive(materials: Seq<Material>, models: Seq<Model>, k: int) -> bool {
    models[k].material < materials.len() && materials[models[k].material as int].emission_spec()@
        != (V3 { x: 0int, y: 0int, z: 0int })
}

/// Total (doubled) emissive area of the first `k` models.
pub open spec fn emissive_area2(materials: Seq<Material>, models: Seq<Model>, k: int) -> int
    decreases k,
{
    if k <= 0 {
        0
    } else {
        emissive_area2(materials, models, k - 1) + if is_emissive(materials, models, k - 1) {
            models[k - 1].area2 as int
        } else {
            0
        }
    }
}

proof fn lemma_emissive_cap(materials: Seq<Material>, models: Seq<Model>, k: int)
    requires
        0 <= k < models.len(),
        forall|i: int| 0 <= i < models.len() ==> (#[trigger] models[i]).area2
            <= 6_000_000_000_000_000_000u128,
    ensures
        emissive_area2(materials, models, k + 1) <= emissive_area2(materials, models, k)
            + 6_000_000_000_000_000_000,
        emissive_area2(materials, models, k) >= 0,
    decreases k,
{
    if k > 0 {
        lemma_emissive_cap(materials, models, k - 1);
    } else {
        lemma_emissive_nonneg(materials, models, 0);
    }
}

proof fn lemma_emissive_nonneg(materials: Seq<Material>, models: Seq<Model>, k: int)
    ensures
        emissive_area2(materials, models, k) >= 0,
    decreases k,
{
    if k > 0 {
        lemma_emissive_nonneg(materials, models, k - 1);
    }
}

/// If every emissive model has zero area, the total emissive area is
/// zero.
proof fn lemma_all_zero_area(materials: Seq<Material>, models: Seq<Model>, k: int)
    requires
        forall|i: int| 0 <= i < k ==> !is_emissive(materials, models, i) || (#[trigger]
            models[i]).area2 == 0,
    ensures
        emissive_area2(materials, models, k) == 0,
    decreases k,
{
    if k > 0 {
        lemma_all_zero_area(materials, models, k - 1);
    }
}

/// A scene with models but no emissive ones fails direct lighting with
/// `InvalidConfig`, and a primary miss always yields the background: the
/// two configuration boundaries of the estimator, stated together.
pub proof fn lemma_no_emitters_is_invalid(s: Scene)
    requires
        s.wf(),
        forall|k: int| 0 <= k < s.models@.len() ==> !is_emissive(s.materials@, s.models@, k),
    ensures
        emissive_area2(s.materials@, s.models@, s.models@.len() as int) == 0,
{
    lemma_no_emitters_zero(s.materials@, s.models@, s.models@.len() as int);
}

proof fn lemma_no_emitters_zero(materials: Seq<Material>, models: Seq<Model>, k: int)
    requires
        forall|i: int| 0 <= i < k ==> !is_emissive(materials, models, i),
    ensures
        emissive_area2(materials, models, k) == 0,
    decreases k,
{
    if k > 0 {
        lemma_no_emitters_zero(materials, models, k - 1);
    }
}

} // verus!
