//! What the passes behind the main one are given, place by place, and when they read what.
use crate::bytes::le16;
use crate::f32bits::F32;
use crate::post::blocks::{ssao_layout, ssr_layout, taa_layout, Matrix, PassCamera};
use crate::post::grade::{atlas_at, grade_words, lut_bytes, texel_bytes};
use crate::post::passes::{
    alpha_at, at_least_one, corner_alphas, link_ends, padded, pass_edges, seen_through, LinkEnds,
    Pass,
};
use crate::post::taa::{after, resolve, TaaFrame, TaaHistory};
use crate::settings::GfxSettings;
use vstd::prelude::*;

verus! {

/// Whether the sixteen words from place `k` on are those of a matrix, column by column.
pub open spec fn matrix_stands_at(w: Seq<u32>, k: int, m: Matrix) -> bool {
    &&& (w[k], w[k + 1], w[k + 2], w[k + 3]) == (m.x.x.bits, m.x.y.bits, m.x.z.bits, m.x.w.bits)
    &&& (w[k + 4], w[k + 5], w[k + 6], w[k + 7]) == (m.y.x.bits, m.y.y.bits, m.y.z.bits, m.y.w.bits)
    &&& (w[k + 8], w[k + 9], w[k + 10], w[k + 11]) == (m.z.x.bits, m.z.y.bits, m.z.z.bits, m.z.w.bits)
    &&& (w[k + 12], w[k + 13], w[k + 14], w[k + 15]) == (m.w.x.bits, m.w.y.bits, m.w.z.bits, m.w.w.bits)
}

/// The smoothing finds the camera of the previous frame, or this one's where that is not known, the
/// inverse projection, where the camera stands, how much of a frame is blended in, whether the history
/// counts, and the size of the view.
pub proof fn smoothing_finds_the_previous_camera_first(c: PassCamera, history: bool)
    ensures
        ({
            let w = taa_layout(c, history);
            &&& w.len() == 52
            &&& c.prev_clip_from_world is Some ==> matrix_stands_at(w, 0, c.prev_clip_from_world->0)
            &&& c.prev_clip_from_world is None ==> matrix_stands_at(w, 0, c.clip_from_world)
            &&& matrix_stands_at(w, 16, c.inv_proj)
            &&& matrix_stands_at(w, 32, c.world_from_view)
            &&& w[48] == 0x3dcc_cccd
            &&& w[49] == (if history {
                0x3f80_0000u32
            } else {
                0
            })
            &&& w[50] == c.width.bits && w[51] == c.height.bits
        }),
{
}

/// The occlusion finds the inverse projection, the camera, the radius and the strength of the settings,
/// its power of 1.5, its end at 80 metres, and the view.
pub proof fn occlusion_finds_the_camera_first(c: PassCamera, g: GfxSettings)
    ensures
        ({
            let w = ssao_layout(c, g);
            &&& w.len() == 40
            &&& matrix_stands_at(w, 0, c.inv_proj)
            &&& matrix_stands_at(w, 16, c.view_from_world)
            &&& (w[32], w[33], w[34], w[35]) == (
                g.ssao_radius.bits,
                g.ssao_intensity.bits,
                0x3fc0_0000u32,
                0x42a0_0000u32,
            )
            &&& (w[36], w[37], w[38], w[39]) == (c.width.bits, c.height.bits, c.proj11.bits, 0u32)
        }),
{
}

/// The reflections find the camera both ways, the inverse projection, their reach of 60 metres and the
/// height of the view.
pub proof fn reflections_find_the_camera_first(c: PassCamera)
    ensures
        ({
            let w = ssr_layout(c);
            &&& w.len() == 68
            &&& matrix_stands_at(w, 0, c.clip_from_world)
            &&& matrix_stands_at(w, 16, c.inv_proj)
            &&& matrix_stands_at(w, 32, c.world_from_view)
            &&& matrix_stands_at(w, 48, c.view_from_world)
            &&& (w[64], w[65], w[66], w[67]) == (0x4270_0000u32, 0u32, 0x3f80_0000u32, c.height.bits)
        }),
{
}

proof fn entry_stands_there(atlas: Seq<u8>, linear: Seq<u16>, one: u16, n: nat, t: int, k: int)
    requires
        0 <= t < n,
        0 <= k < 8,
    ensures
        lut_bytes(atlas, linear, one, n).len() == 8 * n,
        lut_bytes(atlas, linear, one, n)[8 * t + k] == texel_bytes(
            atlas,
            linear,
            one,
            atlas_at(t % 64, (t / 64) % 64, t / 4096),
        )[k],
    decreases n,
{
    if n > 1 {
        entry_stands_there(atlas, linear, one, (n - 1) as nat, 0, 0);
    } else {
        assert(lut_bytes(atlas, linear, one, 0).len() == 0);
    }
    if t < n - 1 {
        entry_stands_there(atlas, linear, one, (n - 1) as nat, t, k);
    }
}

/// Entry (r, g, b) of the table, red changing fastest, has the three channels of its pixel made linear
/// and full alpha. Its pixel stands in the tile of its blue, eight tiles to a row, at its red and green.
pub proof fn entries_are_the_linear_pixels_of_their_tile(
    atlas: Seq<u8>,
    linear: Seq<u16>,
    one: u16,
    r: int,
    g: int,
    b: int,
)
    requires
        0 <= r < 64,
        0 <= g < 64,
        0 <= b < 64,
    ensures
        ({
            let lut = lut_bytes(atlas, linear, one, 262_144);
            let at = 8 * (r + 64 * g + 4096 * b);
            let x = 64 * (b % 8) + r;
            let y = 64 * (b / 8) + g;
            let pixel = 4 * (512 * y + x);
            let red = linear[atlas[pixel] as int];
            let green = linear[atlas[pixel + 1] as int];
            let blue = linear[atlas[pixel + 2] as int];
            &&& lut.len() == 2_097_152
            &&& lut[at] + 256 * lut[at + 1] == red
            &&& lut[at + 2] + 256 * lut[at + 3] == green
            &&& lut[at + 4] + 256 * lut[at + 5] == blue
            &&& lut[at + 6] + 256 * lut[at + 7] == one
        }),
{
    let t = r + 64 * g + 4096 * b;
    assert(t % 64 == r);
    assert((t / 64) % 64 == g);
    assert(t / 4096 == b);
    let pixel = 4 * (512 * (64 * (b / 8) + g) + (64 * (b % 8) + r));
    assert(atlas_at(r, g, b) == pixel);
    entry_stands_there(atlas, linear, one, 262_144, t, 0);
    entry_stands_there(atlas, linear, one, 262_144, t, 1);
    entry_stands_there(atlas, linear, one, 262_144, t, 2);
    entry_stands_there(atlas, linear, one, 262_144, t, 3);
    entry_stands_there(atlas, linear, one, 262_144, t, 4);
    entry_stands_there(atlas, linear, one, 262_144, t, 5);
    entry_stands_there(atlas, linear, one, 262_144, t, 6);
    entry_stands_there(atlas, linear, one, 262_144, t, 7);
    let e = texel_bytes(atlas, linear, one, pixel);
    let red = linear[atlas[pixel] as int];
    let green = linear[atlas[pixel + 1] as int];
    let blue = linear[atlas[pixel + 2] as int];
    assert(e[0] == le16(red)[0] && e[1] == le16(red)[1]);
    assert(e[2] == le16(green)[0] && e[3] == le16(green)[1]);
    assert(e[4] == le16(blue)[0] && e[5] == le16(blue)[1]);
    assert(e[6] == le16(one)[0] && e[7] == le16(one)[1]);
}

/// The grade finds its exposure and sharpening first, then the shape of the vignette and its strength.
pub proof fn the_grade_finds_its_exposure_first(exposure: F32, sharpen: F32, strength: F32)
    ensures
        ({
            let w = grade_words(exposure, sharpen, strength);
            &&& w.len() == 12
            &&& w[0] == exposure.bits && w[1] == sharpen.bits && w[2] == 0 && w[3] == 0
            &&& w[4] == 0x3f93_3333 && w[5] == 0x3f73_3333 && w[6] == 0x3f0c_cccd && w[7] == 0x3fa0_0000
            &&& w[8] == strength.bits && w[9] == 0 && w[10] == 0 && w[11] == 0
        }),
        crate::post::grade::VIGNETTE == 0x3ef9_db23,
        crate::post::grade::ATLAS_BYTES == 512 * 512 * 4,
        crate::post::grade::LUT_TEXELS == 64 * 64 * 64,
{
}

/// Occlusion comes before the main pass, reflections behind it and behind occlusion, smoothing behind
/// reflections, then bloom, the grade, tone mapping, the video link and the scaling; the depth pass
/// comes first, on the fast path alone.
pub proof fn passes_follow_each_other(fast: bool)
    ensures
        pass_edges(fast).contains((Pass::Ssao, Pass::StartMain)),
        pass_edges(fast).contains((Pass::EndMain, Pass::Ssr)),
        pass_edges(fast).contains((Pass::Ssao, Pass::Ssr)),
        pass_edges(fast).contains((Pass::Ssr, Pass::Taa)),
        pass_edges(fast).contains((Pass::EndMain, Pass::Taa)),
        pass_edges(fast).contains((Pass::Ssao, Pass::Taa)),
        pass_edges(fast).contains((Pass::Ssr, Pass::Bloom)),
        pass_edges(fast).contains((Pass::Taa, Pass::Bloom)),
        pass_edges(fast).contains((Pass::Bloom, Pass::Grade)),
        pass_edges(fast).contains((Pass::Grade, Pass::Tonemapping)),
        pass_edges(fast).contains((Pass::Tonemapping, Pass::Fpv)),
        pass_edges(fast).contains((Pass::Fpv, Pass::Upscaling)),
        pass_edges(true).contains((Pass::Prepass, Pass::Ssao)),
        pass_edges(false).len() == 12,
        pass_edges(true).len() == 13,
{
    let e = pass_edges(fast);
    assert(e[0] == (Pass::Ssao, Pass::StartMain));
    assert(e[1] == (Pass::EndMain, Pass::Ssr));
    assert(e[2] == (Pass::Ssr, Pass::Bloom));
    assert(e[3] == (Pass::Ssao, Pass::Ssr));
    assert(e[4] == (Pass::Ssr, Pass::Taa));
    assert(e[5] == (Pass::EndMain, Pass::Taa));
    assert(e[6] == (Pass::Taa, Pass::Bloom));
    assert(e[7] == (Pass::Ssao, Pass::Taa));
    assert(e[8] == (Pass::Bloom, Pass::Grade));
    assert(e[9] == (Pass::Grade, Pass::Tonemapping));
    assert(e[10] == (Pass::Tonemapping, Pass::Fpv));
    assert(e[11] == (Pass::Fpv, Pass::Upscaling));
    assert(pass_edges(true)[12] == (Pass::Prepass, Pass::Ssao));
}

/// The link is measured to the agent's drone where one flies, and else to the rig's.
pub proof fn the_agent_flies_before_the_rig(agent: Option<LinkEnds>, rig: Option<LinkEnds>)
    ensures
        agent is Some ==> link_ends(agent, rig) == agent,
        agent is None ==> link_ends(agent, rig) == rig,
{
}

/// The alpha of a pixel is the last of its four bytes, row by row; what the data do not reach is opaque.
pub proof fn alpha_is_the_fourth_byte(d: Seq<u8>, w: int, h: int, x: int, y: int)
    requires
        0 <= x < w,
        0 <= y < h,
    ensures
        d.len() >= 4 * (w * h) ==> alpha_at(Some(d), w, x, y) == d[4 * (w * y + x) + 3],
        d.len() == 0 ==> alpha_at(Some(d), w, x, y) == 255,
        alpha_at(None, w, x, y) == 255,
{
    assert(y * w + x + 1 <= w * h) by (nonlinear_arith)
        requires
            0 <= x < w,
            0 <= y < h,
    ;
    assert(y * w == w * y) by (nonlinear_arith);
    assert(y * w + x >= 0) by (nonlinear_arith)
        requires
            0 <= x < w,
            0 <= y,
    ;
}

/// Four pixels are looked at, each four in from a corner; the window is seen through where one of them
/// is below 250.
pub proof fn four_corners_are_looked_at(data: Option<Seq<u8>>, w: int, h: int)
    ensures
        ({
            let v = corner_alphas(data, w, h);
            &&& v.len() == 4
            &&& v[0] == alpha_at(data, w, 4, 4)
            &&& v[1] == alpha_at(data, w, w - 5, 4)
            &&& v[2] == alpha_at(data, w, 4, h - 5)
            &&& v[3] == alpha_at(data, w, w - 5, h - 5)
            &&& seen_through(v) <==> v[0] < 250 || v[1] < 250 || v[2] < 250 || v[3] < 250
        }),
{
    let v = corner_alphas(data, w, h);
    if v[0] < 250 || v[1] < 250 || v[2] < 250 || v[3] < 250 {
        assert(seen_through(v));
    }
}

/// Rows are padded to the next multiple of 256, and a picture has a pixel at least.
pub proof fn rows_end_at_multiples_of_256(w: int, n: u32)
    requires
        w >= 0,
    ensures
        padded(w) >= w,
        padded(w) % 256 == 0,
        padded(w) - w < 256,
        n > 0 ==> at_least_one(n) == n,
        at_least_one(0) == 1,
{
}

/// A frame is resolved exactly where all that it needs is there. The textures are made anew where there
/// are none of its size, and the first is written then. What is read is blended in exactly where the
/// frame before was resolved at the same size and its camera is known.
pub proof fn frames_are_resolved_with_what_they_need(h: TaaHistory, f: TaaFrame)
    requires
        h.valid_index(),
    ensures
        ({
            let same = h.allocated && h.width == f.width && h.height == f.height;
            let needs = f.pipeline && f.settings && f.taa && f.prepass && f.active && f.views && f.compiled && f.hdr
                && f.width > 0 && f.height > 0;
            &&& resolve(h, f) is Some <==> needs
            &&& needs ==> {
                let r = resolve(h, f)->0;
                &&& r.allocate == !same
                &&& r.has_history == (same && h.valid && f.prev_camera)
                &&& same ==> r.write_idx == h.write_idx
                &&& !same ==> r.write_idx == 0
                &&& r.read_idx + r.write_idx == 1
                &&& after(h, f).valid
                &&& after(h, f).write_idx == r.read_idx
                &&& after(h, f).allocated && after(h, f).width == f.width && after(h, f).height == f.height
            }
            &&& !needs ==> !after(h, f).valid && after(h, f).write_idx == h.write_idx && after(h, f).allocated
                == h.allocated && after(h, f).width == h.width && after(h, f).height == h.height
        }),
{
}

} // verus!
