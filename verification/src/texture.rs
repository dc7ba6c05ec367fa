use vstd::prelude::*;

use crate::math::SCALE;
use crate::scene::iclamp;
use crate::vec3::{Vec3, COLOR_LIMIT};

verus! {

/// `255^5`, the fifth power of the largest channel value.
pub const GAMMA_NUM: u128 = 1_078_203_909_375;

/// `SCALE^3`, the cube of the fixed-point unit.
pub const SCALE_CUBED: u128 = 1_000_000_000;

/// How a sample is written into the target.
#[derive(Clone, Copy, PartialEq, Eq, Structural, Debug)]
pub enum RenderTextureSetMode {
    Overwrite,
    Add,
}

/// `x^5` as a mathematical function.
pub open spec fn pow5(x: int) -> int {
    x * x * x * x * x
}

/// `k` encodes the clamped unit intensity `c` under the `3/5` power
/// tone curve: `k` is the greatest byte with
/// `k^5 * SCALE^3 <= 255^5 * c^3`.
pub open spec fn encodes_gamma(c: int, k: int) -> bool {
    &&& 0 <= k <= 255
    &&& pow5(k) * SCALE_CUBED <= GAMMA_NUM * (c * c * c)
    &&& k < 255 ==> pow5(k + 1) * SCALE_CUBED > GAMMA_NUM * (c * c * c)
}

fn pow5_exec(x: u64) -> (r: u128)
    requires
        x <= 256,
    ensures
        r == pow5(x as int),
        r <= 1_099_511_627_776u128,
{
    proof {
        assert(x * x * x * x * x <= 1_099_511_627_776) by (nonlinear_arith)
            requires
                0 <= x <= 256,
        ;
        assert(x * x <= 65536 && x * x * x <= 16_777_216 && x * x * x * x
            <= 4_294_967_296i64 as int) by (nonlinear_arith)
            requires
                0 <= x <= 256,
        ;
    }
    let x1 = x as u128;
    x1 * x1 * x1 * x1 * x1
}

/// Tone-map one fixed-point channel in `[0, SCALE]` (clamped) to a byte
/// with the exact integer `3/5`-power curve.
pub fn encode_color_component(c: i64) -> (k: u8)
    ensures
        encodes_gamma(iclamp_unit(c as int), k as int),
{
    let cc = crate::math::Math::clamp_i64(c, 0, SCALE);
    proof {
        assert((cc as int) * (cc as int) <= 1_000_000 && 0 <= (cc as int) * (cc as int)
            && (cc as int) * (cc as int) * (cc as int) <= 1_000_000_000 && 0 <= (cc as int) * (
        cc as int) * (cc as int)) by (nonlinear_arith)
            requires
                0 <= cc <= 1000,
        ;
        assert(GAMMA_NUM * ((cc as int) * (cc as int) * (cc as int)) <= GAMMA_NUM
            * 1_000_000_000) by (nonlinear_arith)
            requires
                0 <= (cc as int) * (cc as int) * (cc as int) <= 1_000_000_000,
        ;
    }
    let c3: u128 = (cc as u128) * (cc as u128) * (cc as u128);
    let rhs: u128 = GAMMA_NUM * c3;
    let mut k: u64 = 255;
    while k > 0
        invariant
            k <= 255,
            rhs == GAMMA_NUM * ((iclamp_unit(c as int)) * (iclamp_unit(c as int)) * (iclamp_unit(
                c as int))),
            rhs >= 0,
            k < 255 ==> pow5(k as int + 1) * SCALE_CUBED > rhs,
        decreases k,
    {
        let cur = pow5_exec(k);
        proof {
            assert(pow5(k as int) * SCALE_CUBED <= 1_099_511_627_776u128 * 1_000_000_000u128)
                by (nonlinear_arith)
                requires
                    0 <= pow5(k as int) <= 1_099_511_627_776u128,
            ;
        }
        if cur * SCALE_CUBED <= rhs {
            return k as u8;
        }
        k = k - 1;
    }
    proof {
        assert(pow5(0int) == 0) by (nonlinear_arith);
    }
    0
}

/// Clamp a channel into the unit range `[0, SCALE]`.
pub open spec fn iclamp_unit(v: int) -> int {
    if v < 0 {
        0
    } else if v > SCALE {
        SCALE as int
    } else {
        v
    }
}

/// A two-dimensional radiance target, row-major from the top row.
pub struct RenderTexture {
    pub buffer: Vec<Vec3>,
    pub width: u32,
    pub height: u32,
}

impl RenderTexture {
    pub open spec fn wf(self) -> bool {
        &&& self.buffer@.len() == (self.width as int) * (self.height as int)
        &&& (self.width as int) * (self.height as int) <= 100_000_000
        &&& forall|i: int| 0 <= i < self.buffer@.len() ==> (#[trigger] self.buffer@[i]).bounded(
            COLOR_LIMIT as int)
    }

    pub open spec fn buffer_spec(self) -> Seq<Vec3> {
        self.buffer@
    }

    pub open spec fn width_spec(self) -> int {
        self.width as int
    }

    pub open spec fn height_spec(self) -> int {
        self.height as int
    }

    pub fn new(width: u32, height: u32) -> (t: RenderTexture)
        requires
            width * height <= 100_000_000,
        ensures
            t.wf(),
            t.width_spec() == width,
            t.height_spec() == height,
            forall|i: int| 0 <= i < t.buffer_spec().len() ==> (#[trigger] t.buffer_spec()[i])@
                == (crate::vec3::V3 { x: 0int, y: 0int, z: 0int }),
    {
        let total = (width as u64) * (height as u64);
        let mut buffer: Vec<Vec3> = Vec::new();
        let mut i: u64 = 0;
        while i < total
            invariant
                total == (width as int) * (height as int),
                total <= 100_000_000,
                i <= total,
                buffer@.len() == i,
                forall|j: int| 0 <= j < buffer@.len() ==> (#[trigger] buffer@[j])@
                    == (crate::vec3::V3 { x: 0int, y: 0int, z: 0int }),
            decreases total - i,
        {
            buffer.push(Vec3 { x: 0, y: 0, z: 0 });
            i = i + 1;
        }
        RenderTexture { buffer, width, height }
    }

    pub fn get_width(&self) -> (w: u32)
        ensures
            w == self.width_spec(),
    {
        self.width
    }

    pub fn get_height(&self) -> (h: u32)
        ensures
            h == self.height_spec(),
    {
        self.height
    }

    /// Write or accumulate one pixel.  Accumulation clamps into the
    /// radiance range componentwise.
    pub fn set(&mut self, x: u32, y: u32, color: Vec3, mode: RenderTextureSetMode)
        requires
            old(self).wf(),
            x < old(self).width_spec(),
            y < old(self).height_spec(),
            color.bounded(COLOR_LIMIT as int),
        ensures
            final(self).wf(),
            final(self).width_spec() == old(self).width_spec(),
            final(self).height_spec() == old(self).height_spec(),
            final(self).buffer_spec() == old(self).buffer_spec().update(
                y * old(self).width_spec() + x,
                match mode {
                    RenderTextureSetMode::Overwrite => color,
                    RenderTextureSetMode::Add => (Vec3 {
                        x: iclamp(old(self).buffer_spec()[y * old(self).width_spec() + x]@.x
                            + color@.x) as i64,
                        y: iclamp(old(self).buffer_spec()[y * old(self).width_spec() + x]@.y
                            + color@.y) as i64,
                        z: iclamp(old(self).buffer_spec()[y * old(self).width_spec() + x]@.z
                            + color@.z) as i64,
                    }),
                },
            ),
    {
        proof {
            lemma_pixel_index(x as int, y as int, self.width as int, self.height as int);
        }
        let idx = (y as usize) * (self.width as usize) + (x as usize);
        match mode {
            RenderTextureSetMode::Overwrite => {
                self.buffer.set(idx, color);
            },
            RenderTextureSetMode::Add => {
                let old_c = self.buffer[idx];
                let sum = crate::scene::clamp_color(old_c.add(&color));
                self.buffer.set(idx, sum);
            },
        }
    }

    /// Read one pixel.
    pub fn get(&self, x: u32, y: u32) -> (c: Vec3)
        requires
            self.wf(),
            x < self.width_spec(),
            y < self.height_spec(),
        ensures
            c == self.buffer_spec()[y * self.width_spec() + x],
    {
        proof {
            lemma_pixel_index(x as int, y as int, self.width as int, self.height as int);
        }
        let idx = (y as usize) * (self.width as usize) + (x as usize);
        self.buffer[idx]
    }

    /// The binary pixel payload: three tone-mapped bytes per pixel,
    /// row-major from the top row, exactly in buffer order.
    pub fn pixel_bytes(&self) -> (bytes: Vec<u8>)
        requires
            self.wf(),
            self.buffer_spec().len() <= 100_000_000,
        ensures
            bytes@.len() == 3 * self.buffer_spec().len(),
            forall|i: int|
                0 <= i < self.buffer_spec().len() ==> encodes_gamma(iclamp_unit(
                    (#[trigger] self.buffer_spec()[i])@.x), bytes@[3 * i] as int)
                    && encodes_gamma(iclamp_unit(self.buffer_spec()[i]@.y), bytes@[3 * i
                    + 1] as int) && encodes_gamma(iclamp_unit(self.buffer_spec()[i]@.z),
                    bytes@[3 * i + 2] as int),
    {
        let mut bytes: Vec<u8> = Vec::new();
        let mut i: usize = 0;
        let n = self.buffer.len();
        while i < n
            invariant
                self.wf(),
                n == self.buffer_spec().len(),
                i <= n,
                bytes@.len() == 3 * i,
                forall|j: int|
                    0 <= j < i ==> encodes_gamma(iclamp_unit(
                        (#[trigger] self.buffer_spec()[j])@.x), bytes@[3 * j] as int)
                        && encodes_gamma(iclamp_unit(self.buffer_spec()[j]@.y), bytes@[3 * j
                        + 1] as int) && encodes_gamma(iclamp_unit(self.buffer_spec()[j]@.z),
                        bytes@[3 * j + 2] as int),
            decreases n - i,
        {
            let c = self.buffer[i];
            bytes.push(encode_color_component(c.x));
            bytes.push(encode_color_component(c.y));
            bytes.push(encode_color_component(c.z));
            i = i + 1;
        }
        bytes
    }
}

/// Row-major pixel indices stay inside the buffer.
proof fn lemma_pixel_index(x: int, y: int, w: int, h: int) by (nonlinear_arith)
    requires
        0 <= x < w,
        0 <= y < h,
    ensures
        0 <= y * w + x < w * h,
{
}

/// The accumulation target of a renderer.
pub struct FrameBuffer {
    pub render_target: RenderTexture,
}

impl FrameBuffer {
    pub open spec fn wf(self) -> bool {
        self.render_target.wf()
    }

    pub fn new(width: u32, height: u32) -> (f: FrameBuffer)
        requires
            width * height <= 100_000_000,
        ensures
            f.wf(),
            f.target_spec().width_spec() == width,
            f.target_spec().height_spec() == height,
    {
        FrameBuffer { render_target: RenderTexture::new(width, height) }
    }

    pub open spec fn target_spec(self) -> RenderTexture {
        self.render_target
    }

    pub fn get_render_target(&self) -> (rt: &RenderTexture)
        ensures
            *rt == self.render_target,
    {
        &self.render_target
    }

    /// Write or accumulate one pixel of the target, exactly as the
    /// texture's own update.
    pub fn set(&mut self, x: u32, y: u32, color: Vec3, mode: RenderTextureSetMode)
        requires
            old(self).wf(),
            x < old(self).target_spec().width_spec(),
            y < old(self).target_spec().height_spec(),
            color.bounded(COLOR_LIMIT as int),
        ensures
            final(self).wf(),
            final(self).target_spec().width_spec() == old(self).target_spec().width_spec(),
            final(self).target_spec().height_spec() == old(self).target_spec().height_spec(),
            final(self).target_spec().buffer_spec() == old(self).target_spec().buffer_spec()
                .update(
                y * old(self).target_spec().width_spec() + x,
                match mode {
                    RenderTextureSetMode::Overwrite => color,
                    RenderTextureSetMode::Add => (Vec3 {
                        x: crate::scene::iclamp(old(self).target_spec().buffer_spec()[y * old(
                            self).target_spec().width_spec() + x]@.x + color@.x) as i64,
                        y: crate::scene::iclamp(old(self).target_spec().buffer_spec()[y * old(
                            self).target_spec().width_spec() + x]@.y + color@.y) as i64,
                        z: crate::scene::iclamp(old(self).target_spec().buffer_spec()[y * old(
                            self).target_spec().width_spec() + x]@.z + color@.z) as i64,
                    }),
                },
            ),
    {
        self.render_target.set(x, y, color, mode);
    }
}

} // verus!
