//! The blocks that the passes on the depth of the scene read, word by word.
use vstd::prelude::*;
use crate::f32bits::{float, F32, ONE};
use crate::gpu::materials::V4;
use crate::gpu::uniforms::{push_row, words_of};
use crate::post::taa::TaaResolve;
use crate::settings::GfxSettings;

verus! {

/// A matrix, by its columns.
#[derive(Clone, Copy, Debug, PartialEq, Eq, Structural)]
pub struct Matrix {
    pub x: V4,
    pub y: V4,
    pub z: V4,
    pub w: V4,
}

/// The bits of 0.1: how much of a frame is blended into the history.
pub const TAA_BLEND: u32 = 0x3dcc_cccd;

/// The bits of 1.5 and 80: the power of the occlusion, and how far away it ends.
pub const AO_POWER: u32 = 0x3fc0_0000;

pub const AO_FAR: u32 = 0x42a0_0000;

/// The bits of 60: how far reflections reach.
pub const SSR_REACH: u32 = 0x4270_0000;

/// The words of a matrix.
pub open spec fn matrix_words(m: Matrix) -> Seq<u32> {
    words_of(m.x) + words_of(m.y) + words_of(m.z) + words_of(m.w)
}

fn push_matrix(out: &mut Vec<u32>, m: Matrix)
    ensures
        final(out)@ == old(out)@ + matrix_words(m),
{
    push_row(out, m.x);
    push_row(out, m.y);
    push_row(out, m.z);
    push_row(out, m.w);
    assert(out@ =~= old(out)@ + matrix_words(m));
}

/// The camera of a frame as the passes read it.
#[derive(Clone, Copy, Debug, PartialEq, Eq, Structural)]
pub struct PassCamera {
    pub clip_from_world: Matrix,
    /// The same of the previous frame, where it is known.
    pub prev_clip_from_world: Option<Matrix>,
    pub inv_proj: Matrix,
    pub world_from_view: Matrix,
    pub view_from_world: Matrix,
    /// The size of the view in pixels.
    pub width: F32,
    pub height: F32,
    /// The vertical scale of the projection.
    pub proj11: F32,
}

/// The block of the smoothing: where the previous frame was seen from (this one, where that is not
/// known), the camera, and whether the history counts.
pub open spec fn taa_layout(c: PassCamera, has_history: bool) -> Seq<u32> {
    matrix_words(
        match c.prev_clip_from_world {
            Some(m) => m,
            None => c.clip_from_world,
        },
    ) + matrix_words(c.inv_proj) + matrix_words(c.world_from_view) + words_of(
        V4 {
            x: float(TAA_BLEND),
            y: if has_history {
                float(ONE)
            } else {
                float(0)
            },
            z: c.width,
            w: c.height,
        },
    )
}

/// The words of the smoothing's block, 208 bytes.
pub fn taa_words(c: &PassCamera, r: &TaaResolve) -> (words: Vec<u32>)
    ensures
        words@ == taa_layout(*c, r.has_history),
        4 * words@.len() == 208,
{
    let mut words: Vec<u32> = Vec::new();
    let prev = match c.prev_clip_from_world {
        Some(m) => m,
        None => c.clip_from_world,
    };
    push_matrix(&mut words, prev);
    push_matrix(&mut words, c.inv_proj);
    push_matrix(&mut words, c.world_from_view);
    let known = if r.has_history {
        F32 { bits: ONE }
    } else {
        F32 { bits: 0 }
    };
    push_row(&mut words, V4 { x: F32 { bits: TAA_BLEND }, y: known, z: c.width, w: c.height });
    assert(words@ =~= taa_layout(*c, r.has_history));
    words
}

/// The block of the occlusion: the camera, the radius and the strength of the settings, and the view.
pub open spec fn ssao_layout(c: PassCamera, g: GfxSettings) -> Seq<u32> {
    matrix_words(c.inv_proj) + matrix_words(c.view_from_world) + words_of(
        V4 { x: g.ssao_radius, y: g.ssao_intensity, z: float(AO_POWER), w: float(AO_FAR) },
    ) + words_of(V4 { x: c.width, y: c.height, z: c.proj11, w: float(0) })
}

/// The words of the occlusion's block, 160 bytes.
pub fn ssao_words(c: &PassCamera, g: &GfxSettings) -> (words: Vec<u32>)
    ensures
        words@ == ssao_layout(*c, *g),
        4 * words@.len() == 160,
{
    let mut words: Vec<u32> = Vec::new();
    push_matrix(&mut words, c.inv_proj);
    push_matrix(&mut words, c.view_from_world);
    push_row(
        &mut words,
        V4 { x: g.ssao_radius, y: g.ssao_intensity, z: F32 { bits: AO_POWER }, w: F32 { bits: AO_FAR } },
    );
    push_row(&mut words, V4 { x: c.width, y: c.height, z: c.proj11, w: F32 { bits: 0 } });
    assert(words@ =~= ssao_layout(*c, *g));
    words
}

/// The block of the reflections: the camera, how far they reach, and the height of the view.
pub open spec fn ssr_layout(c: PassCamera) -> Seq<u32> {
    matrix_words(c.clip_from_world) + matrix_words(c.inv_proj) + matrix_words(c.world_from_view) + matrix_words(
        c.view_from_world,
    ) + words_of(V4 { x: float(SSR_REACH), y: float(0), z: float(ONE), w: c.height })
}

/// The words of the reflections' block, 272 bytes.
pub fn ssr_words(c: &PassCamera) -> (words: Vec<u32>)
    ensures
        words@ == ssr_layout(*c),
        4 * words@.len() == 272,
{
    let mut words: Vec<u32> = Vec::new();
    push_matrix(&mut words, c.clip_from_world);
    push_matrix(&mut words, c.inv_proj);
    push_matrix(&mut words, c.world_from_view);
    push_matrix(&mut words, c.view_from_world);
    push_row(
        &mut words,
        V4 { x: F32 { bits: SSR_REACH }, y: F32 { bits: 0 }, z: F32 { bits: ONE }, w: c.height },
    );
    assert(words@ =~= ssr_layout(*c));
    words
}

} // verus!
