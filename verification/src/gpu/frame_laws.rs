//! What the blocks, draws and switches of a frame hold, place by place.
use crate::f32bits::{float, F32};
use crate::gpu::draw::{
    attributes, blend_items, draw_of, groups_for, mesh_items, pass_defs, pass_label, writes_depth,
    DrawItem, DrawOrder, DrawPass,
};
use crate::gpu::load::{
    is_one, not_off, paint_sentinel, prepare_action, DeviceFeatures, PrepareAction, PrepareState,
};
use crate::gpu::materials::{V3, V4};
use crate::gpu::meshes::BlendMesh;
use crate::gpu::sh_volume::{
    channel_texture, flat_texel, realtime_lights, rearrangement_is_lossless, strength_or,
    volume_usable, VolumeMeta,
};
use crate::gpu::uniforms::{
    cascade_layout, pixel_sizes, rows_of, scales_of, switch_float, CullUniform, SunShadowUniform,
};
use crate::instancing::{drawn, draws, records, InstanceData, MeshSize, PackInstance};
use crate::settings::GfxSettings;
use crate::text::{ascii_lowered, trimmed};
use vstd::prelude::*;

verus! {

proof fn row_stands_there(vs: Seq<V4>, n: nat, i: int)
    requires
        0 <= i < n <= vs.len(),
    ensures
        rows_of(vs, n).len() == 4 * n,
        rows_of(vs, n)[4 * i] == vs[i].x.bits,
        rows_of(vs, n)[4 * i + 1] == vs[i].y.bits,
        rows_of(vs, n)[4 * i + 2] == vs[i].z.bits,
        rows_of(vs, n)[4 * i + 3] == vs[i].w.bits,
    decreases n,
{
    if n > 1 {
        row_stands_there(vs, (n - 1) as nat, 0);
    } else {
        assert(rows_of(vs, 0).len() == 0);
    }
    if i < n - 1 {
        row_stands_there(vs, (n - 1) as nat, i);
    }
}

/// The culling finds its six planes first, then the counts of instances and meshes, the threshold of
/// grass, and the camera with the threshold of all else.
pub proof fn culling_finds_its_planes_first(u: CullUniform, i: int)
    requires
        u.wf(),
        0 <= i < 6,
    ensures
        ({
            let w = u.layout();
            let p = u.frustum@[i];
            &&& w.len() == 32
            &&& (w[4 * i], w[4 * i + 1], w[4 * i + 2], w[4 * i + 3]) == (p.x.bits, p.y.bits, p.z.bits, p.w.bits)
            &&& w[24] == u.instances && w[25] == u.meshes && w[26] == u.k_grass.bits && w[27] == 0
            &&& (w[28], w[29], w[30], w[31]) == (u.cam_k.x.bits, u.cam_k.y.bits, u.cam_k.z.bits, u.cam_k.w.bits)
        }),
{
    row_stands_there(u.frustum@, 6, i);
}

/// The shadows find the columns of both matrices first, then where the cascades end, the sun, the
/// widths of texels, how shadow and baked light combine, and the scales of the settings.
pub proof fn shadows_find_their_matrices_first(u: SunShadowUniform, i: int)
    requires
        u.wf(),
        0 <= i < 8,
    ensures
        ({
            let w = u.layout();
            let p = u.view_proj@[i];
            &&& w.len() == 52
            &&& (w[4 * i], w[4 * i + 1], w[4 * i + 2], w[4 * i + 3]) == (p.x.bits, p.y.bits, p.z.bits, p.w.bits)
            &&& (w[32], w[33], w[34], w[35]) == (
                u.split_depths.x.bits,
                u.split_depths.y.bits,
                u.split_depths.z.bits,
                u.split_depths.w.bits,
            )
            &&& (w[36], w[37], w[38], w[39]) == (
                u.sun_dir_texel.x.bits,
                u.sun_dir_texel.y.bits,
                u.sun_dir_texel.z.bits,
                u.sun_dir_texel.w.bits,
            )
            &&& (w[40], w[41], w[42], w[43]) == (
                u.texel_world.x.bits,
                u.texel_world.y.bits,
                u.texel_world.z.bits,
                u.texel_world.w.bits,
            )
            &&& (w[44], w[45], w[46], w[47]) == (
                u.combine.x.bits,
                u.combine.y.bits,
                u.combine.z.bits,
                u.combine.w.bits,
            )
            &&& (w[48], w[49], w[50], w[51]) == (u.gfx.x.bits, u.gfx.y.bits, u.gfx.z.bits, u.gfx.w.bits)
        }),
{
    row_stands_there(u.view_proj@, 8, i);
}

/// A cascade finds the columns of its matrix first, then the sun with the width of a texel, one 2048th,
/// and whether grass casts shadows.
pub proof fn cascades_find_their_matrix_first(view_proj: Seq<V4>, sun: V3, grass: bool, i: int)
    requires
        view_proj.len() == 4,
        0 <= i < 4,
    ensures
        ({
            let w = cascade_layout(view_proj, sun, grass);
            let p = view_proj[i];
            &&& w.len() == 24
            &&& (w[4 * i], w[4 * i + 1], w[4 * i + 2], w[4 * i + 3]) == (p.x.bits, p.y.bits, p.z.bits, p.w.bits)
            &&& (w[16], w[17], w[18], w[19]) == (sun.x.bits, sun.y.bits, sun.z.bits, 0x3a00_0000u32)
            &&& w[20] == (if grass {
                0x3f80_0000u32
            } else {
                0
            })
            &&& w[21] == 0 && w[22] == 0 && w[23] == 0
        }),
{
    row_stands_there(view_proj, 4, i);
}

/// Without grass no clump is large enough to be drawn; without settings the sizes are 1.5 and 4 pixels.
pub proof fn sizes_are_those_of_the_settings(g: Option<GfxSettings>)
    ensures
        g is None ==> pixel_sizes(g).0.bits == 0x3fc0_0000 && pixel_sizes(g).1.bits == 0x4080_0000,
        g is Some ==> pixel_sizes(g).0 == g->0.cull_px,
        g is Some && g->0.grass ==> pixel_sizes(g).1 == g->0.cull_px_grass,
        g is Some && !g->0.grass ==> pixel_sizes(g).1.bits == 0x7f7f_ffff,
        g is Some ==> scales_of(g).x == g->0.fog && scales_of(g).y == g->0.sky_refl && scales_of(g).z
            == g->0.emissive,
        g is None ==> scales_of(g).x.bits == 0x3f80_0000 && scales_of(g).y.bits == 0x3f80_0000
            && scales_of(g).z.bits == 0x3f80_0000,
        switch_float(true).bits == 0x3f80_0000,
        switch_float(false).bits == 0,
{
}

/// The distances of the shadows: the cascades end at 15 and 80 metres and overlap by a tenth, shadows
/// take away 0.12 of the baked light at most and fade from 65 metres to 80.
pub proof fn shadows_fade_behind_the_last_cascade()
    ensures
        crate::gpu::uniforms::SHADOW_SPLIT_NEAR == 0x4170_0000,
        crate::gpu::uniforms::SHADOW_SPLIT_FAR == 0x42a0_0000,
        crate::gpu::uniforms::SHADOW_CASCADE_OVERLAP == 0x3dcc_cccd,
        crate::gpu::uniforms::SHADOW_DIFFUSE_CAP == 0x3df5_c28f,
        crate::gpu::uniforms::SHADOW_FADE_START == 0x4282_0000,
        crate::gpu::uniforms::SHADOW_FADE_END == crate::gpu::uniforms::SHADOW_SPLIT_FAR,
        crate::gpu::uniforms::SHADOW_TEXEL == 0x3a00_0000,
        crate::gpu::uniforms::SHADOW_CASCADES == 2,
        crate::gpu::uniforms::NORMAL_BIAS == 0x3f40_0000,
        float(crate::gpu::uniforms::SHADOW_SPLIT_NEAR).lt(float(crate::gpu::uniforms::SHADOW_SPLIT_FAR)),
        float(crate::gpu::uniforms::SHADOW_FADE_START).lt(float(crate::gpu::uniforms::SHADOW_FADE_END)),
{
}

/// Whether a mesh has a pass among its passes, each of which is one bit.
pub open spec fn in_pass(m: BlendMesh, bit: int) -> bool {
    (m.passes as int / bit) % 2 == 1
}

/// A mesh is drawn once in each of its passes and in no other: transparency (4) and overlays (2) by
/// distance, overlays ahead; feathering decals (1) at fixed places, their depth behind all colours.
pub proof fn meshes_are_drawn_in_their_passes(m: BlendMesh, it: DrawItem)
    ensures
        mesh_items(m).contains(it) <==> it.mesh == Some(m.mesh) && {
            ||| in_pass(m, 4) && it.pass is Blend && it.order == DrawOrder::ByDistance { ahead: false }
            ||| in_pass(m, 2) && it.pass is Overlay && it.order == DrawOrder::ByDistance { ahead: true }
            ||| in_pass(m, 1) && it.pass is DecalColor && it.order == DrawOrder::Fixed((2_000_000 + m.mesh) as u64)
            ||| in_pass(m, 1) && it.pass is DecalDepth && it.order == DrawOrder::Fixed(1_500_000u64)
        },
        mesh_items(m).len() == (if in_pass(m, 4) {
            1int
        } else {
            0
        }) + (if in_pass(m, 2) {
            1int
        } else {
            0
        }) + (if in_pass(m, 1) {
            2int
        } else {
            0
        }),
{
    let s = mesh_items(m);
    let color = DrawItem {
        pass: DrawPass::DecalColor,
        order: DrawOrder::Fixed((2_000_000 + m.mesh) as u64),
        mesh: Some(m.mesh),
    };
    let depth = DrawItem { pass: DrawPass::DecalDepth, order: DrawOrder::Fixed(1_500_000u64), mesh: Some(m.mesh) };
    let over = DrawItem { pass: DrawPass::Overlay, order: DrawOrder::ByDistance { ahead: true }, mesh: Some(m.mesh) };
    let glass = DrawItem { pass: DrawPass::Blend, order: DrawOrder::ByDistance { ahead: false }, mesh: Some(m.mesh) };
    let d = if in_pass(m, 1) {
        2int
    } else {
        0
    };
    let o = if in_pass(m, 2) {
        1int
    } else {
        0
    };
    if in_pass(m, 1) {
        assert(s[0] == color);
        assert(s[1] == depth);
    }
    if in_pass(m, 2) {
        assert(s[d] == over);
    }
    if in_pass(m, 4) {
        assert(s[d + o] == glass);
    }
}

/// The items of blended meshes stand in the order of the meshes.
pub proof fn meshes_are_queued_in_order(ms: Seq<BlendMesh>, k: nat)
    requires
        k < ms.len(),
    ensures
        blend_items(ms, k + 1) == blend_items(ms, k) + mesh_items(ms[k as int]),
        blend_items(ms, 0).len() == 0,
{
}

/// What is not blended is drawn all at once; a blended mesh draws its own record of twenty bytes.
pub proof fn items_draw_their_records(item: DrawItem, meshes: u32)
    ensures
        item.mesh is None ==> draw_of(item, meshes).count == meshes && draw_of(item, meshes).offset == 0 && !draw_of(
            item,
            meshes,
        ).blended,
        item.mesh is Some ==> draw_of(item, meshes).count == 1 && draw_of(item, meshes).offset == 20 * item.mesh->0
            && draw_of(item, meshes).blended,
{
}

/// Groups of 64 threads take care of all items, and none of them is idle.
pub proof fn groups_cover_all_items(n: u32)
    ensures
        64 * groups_for(n) >= n,
        64 * groups_for(n) < n + 64,
{
}

/// Just the opaque pass and the depth of decals write depth; each pass has its own label, and the
/// blended ones tell the shader so.
pub proof fn passes_differ_in_what_they_write(p: DrawPass)
    ensures
        writes_depth(p) <==> p == DrawPass::Opaque || p == DrawPass::DecalDepth,
        pass_defs(p).contains("BLEND_PASS"@) <==> p == DrawPass::Blend || p == DrawPass::Overlay || p
            == DrawPass::DecalColor,
        pass_defs(p).contains("DECAL_NDC_PUSH"@) <==> p == DrawPass::Overlay || p == DrawPass::DecalColor,
        pass_defs(p).contains("OVERLAY_PASS"@) <==> p == DrawPass::Overlay,
        pass_defs(p).contains("DECAL_COLOR_PASS"@) <==> p == DrawPass::DecalColor,
        pass_defs(p).contains("DECAL_DEPTH_PASS"@) <==> p == DrawPass::DecalDepth,
        p == DrawPass::Opaque ==> pass_defs(p).len() == 0 && pass_label(p) == "eft_gpu_draw_opaque"@,
        p == DrawPass::Blend ==> pass_label(p) == "eft_gpu_draw_blend"@,
        p == DrawPass::Overlay ==> pass_label(p) == "eft_gpu_draw_overlay"@,
        p == DrawPass::DecalDepth ==> pass_label(p) == "eft_gpu_draw_decal_depth"@,
        p == DrawPass::DecalColor ==> pass_label(p) == "eft_gpu_draw_decal_color"@,
{
    reveal_strlit("BLEND_PASS");
    reveal_strlit("DECAL_NDC_PUSH");
    reveal_strlit("OVERLAY_PASS");
    reveal_strlit("DECAL_COLOR_PASS");
    reveal_strlit("DECAL_DEPTH_PASS");
    let d = pass_defs(p);
    assert("BLEND_PASS"@.len() == 10 && "DECAL_NDC_PUSH"@.len() == 14 && "OVERLAY_PASS"@.len() == 12);
    assert("DECAL_COLOR_PASS"@.len() == 16 && "DECAL_DEPTH_PASS"@.len() == 16);
    assert("DECAL_COLOR_PASS"@[6] == 'C' && "DECAL_DEPTH_PASS"@[6] == 'D');
    match p {
        DrawPass::Opaque => {},
        DrawPass::Blend => {
            assert(d[0] == "BLEND_PASS"@);
        },
        DrawPass::Overlay => {
            assert(d[0] == "BLEND_PASS"@ && d[1] == "OVERLAY_PASS"@ && d[2] == "DECAL_NDC_PUSH"@);
        },
        DrawPass::DecalDepth => {
            assert(d[0] == "DECAL_DEPTH_PASS"@);
        },
        DrawPass::DecalColor => {
            assert(d[0] == "BLEND_PASS"@ && d[1] == "DECAL_COLOR_PASS"@ && d[2] == "DECAL_NDC_PUSH"@);
        },
    }
}

/// Position, normal, texture coordinate, material and colour of a vertex are found in this order, the
/// material as an integer and all else as floats.
pub proof fn vertices_are_read_in_order()
    ensures
        attributes().len() == 5,
        attributes().map_values(|a: crate::gpu::draw::Attribute| (a.words, a.offset, a.location)) == seq![
            (3u32, 0u64, 0u32),
            (3u32, 12u64, 1u32),
            (2u32, 24u64, 2u32),
            (1u32, 32u64, 3u32),
            (4u32, 36u64, 4u32),
        ],
        forall|i: int| 0 <= i < 5 ==> (#[trigger] attributes()[i]).integer == (i == 3),
{
    assert(attributes().map_values(|a: crate::gpu::draw::Attribute| (a.words, a.offset, a.location)) =~= seq![
        (3u32, 0u64, 0u32),
        (3u32, 12u64, 1u32),
        (2u32, 24u64, 2u32),
        (1u32, 32u64, 3u32),
        (4u32, 36u64, 4u32),
    ]);
}

/// A setting switches on exactly where it is "1", and switches off exactly where it is "0" or "false",
/// whatever spaces stand around it.
pub proof fn settings_switch_by_their_words(s: Seq<char>)
    ensures
        is_one(Some(s)) <==> trimmed(s) == "1"@,
        !is_one(None),
        not_off(None),
        !not_off(Some(s)) <==> trimmed(s) == "0"@ || ascii_lowered(trimmed(s)) == ascii_lowered("false"@),
        is_one(Some(s)) ==> not_off(Some(s)),
{
    reveal_strlit("1");
    reveal_strlit("0");
    reveal_strlit("false");
    if is_one(Some(s)) {
        assert("1"@[0] == '1' && "0"@[0] == '0');
        assert(ascii_lowered("1"@).len() == 1 && ascii_lowered("false"@).len() == 5);
    }
}

/// A frame does nothing for a map that is built but drop its staging data; without pipelines it gives
/// up; it waits for the data of the current map, and then builds at once, starts a build or goes on
/// with the one for those data.
pub proof fn frames_build_the_current_map(s: PrepareState)
    ensures
        s.built <==> prepare_action(s) is Built,
        s.built ==> prepare_action(s) == (PrepareAction::Built { drop_data: s.data is Some }),
        prepare_action(s) is Disabled <==> !s.built && !s.has_pipelines,
        prepare_action(s) is Wait <==> !s.built && s.has_pipelines && (s.data is None || s.map_epoch is Some
            && s.map_epoch != s.data),
        prepare_action(s) is BuildNow <==> !s.built && s.has_pipelines && s.data is Some && (s.map_epoch is None
            || s.map_epoch == s.data) && s.sync_load,
        prepare_action(s) is Progress <==> !s.built && s.has_pipelines && s.data is Some && (s.map_epoch is None
            || s.map_epoch == s.data) && !s.sync_load && s.build_epoch == s.data,
{
}

/// A device runs the fast path exactly where it has all four features; the paint table that is never
/// empty points at no texture.
pub proof fn the_fast_path_needs_four_features(d: DeviceFeatures)
    ensures
        d.enough() <==> d.indirect_first_instance && d.multi_draw_indirect && d.texture_binding_array
            && d.non_uniform_indexing,
        paint_sentinel().layer0 == 0xffff_ffff && paint_sentinel().layer1 == 0xffff_ffff && paint_sentinel().layer2
            == 0xffff_ffff && paint_sentinel().heights == 0xffff_ffff,
        crate::gpu::load::STAGING_FRAMES == 4,
        crate::gpu::load::DRAW_ARG_STRIDE == 20,
        crate::gpu::load::DRAW_VERTEX_STRIDE == 52,
{
}

proof fn texel_stands_there(bin: Seq<u8>, c: int, n: nat)
    ensures
        channel_texture(bin, c, n).len() == 8 * n,
    decreases n,
{
    if n > 0 {
        texel_stands_there(bin, c, (n - 1) as nat);
    }
}

/// The texture of a colour has eight bytes for each probe, which are the four coefficients of that
/// colour: coefficient `k` of colour `c` of probe `p` stands in the file as half float 3k + c.
pub proof fn textures_hold_one_colour_each(bin: Seq<u8>, n: nat, p: int, c: int, k: int, b: int)
    requires
        0 <= p < n,
        0 <= c < 3,
        0 <= k < 4,
        0 <= b < 2,
    ensures
        channel_texture(bin, c, n).len() == 8 * n,
        channel_texture(bin, c, n)[8 * p + 2 * k + b] == bin[24 * p + 2 * (3 * k + c) + b],
{
    texel_stands_there(bin, c, n);
    rearrangement_is_lossless(bin, n, p, 3 * k + c, b);
    assert((3 * k + c) % 3 == c);
    assert((3 * k + c) / 3 == k);
}

/// A volume is used exactly where it has four coefficients of three colours, a probe at least, and 24
/// bytes for each.
pub proof fn volumes_need_all_their_bytes(m: VolumeMeta, bin: Seq<u8>)
    ensures
        volume_usable(m, bin) <==> m.coeffs == 4 && m.channels == 3 && m.nx * m.ny * m.nz >= 1 && 24 * (m.nx * m.ny
            * m.nz) <= bin.len(),
        flat_texel() == seq![0u8, 60, 0, 0, 0, 0, 0, 0],
{
}

/// A strength that is asked for counts where it is finite and not negative.
pub proof fn strengths_are_finite_and_not_negative(v: Option<F32>, d: F32)
    ensures
        v is Some && v->0.finite() && v->0.rank() >= 0 ==> strength_or(v, d) == v->0,
        v is None || !v->0.finite() || v->0.rank() < 0 ==> strength_or(v, d) == d,
{
}

/// Lights are walked in real time where that is asked for; never where the volume is asked for; and
/// else where there is no volume, or one of indirect light only.
pub proof fn lights_are_walked_unless_baked(mode: Option<Seq<char>>, has_volume: bool, indirect: bool)
    ensures
        ({
            let r = realtime_lights(mode, has_volume, indirect);
            let t = ascii_lowered(trimmed(mode->0));
            let on = mode is Some && (t == "rt"@ || t == "on"@ || t == "1"@);
            let off = mode is Some && (t == "sh"@ || t == "off"@ || t == "0"@);
            &&& on ==> r
            &&& off ==> !r
            &&& !on && !off ==> (r <==> !(has_volume && !indirect))
        }),
{
    reveal_strlit("rt");
    reveal_strlit("on");
    reveal_strlit("1");
    reveal_strlit("sh");
    reveal_strlit("off");
    reveal_strlit("0");
    assert("rt"@.len() == 2 && "on"@.len() == 2 && "1"@.len() == 1 && "sh"@.len() == 2 && "off"@.len() == 3
        && "0"@.len() == 1);
    assert("rt"@[0] == 'r' && "on"@[0] == 'o' && "sh"@[0] == 's' && "1"@[0] == '1' && "0"@[0] == '0');
}

/// The records of a mesh are those of its instances that belong to the default shell, in their order,
/// each with its own transform and flags.
pub proof fn default_shells_are_recorded(ids: Seq<u32>, all: Seq<PackInstance>, n: nat)
    requires
        n <= ids.len(),
    ensures
        records(ids, all, n) == ids.take(n as int).filter(|i: u32| all[i as int].default_lod).map_values(
            |i: u32|
                InstanceData {
                    m0: all[i as int].m0,
                    m1: all[i as int].m1,
                    m2: all[i as int].m2,
                    flags: all[i as int].flags,
                },
        ),
    decreases n,
{
    reveal(Seq::filter);
    let s = ids.take(n as int);
    let pred = |i: u32| all[i as int].default_lod;
    if n > 0 {
        default_shells_are_recorded(ids, all, (n - 1) as nat);
        assert(s.drop_last() =~= ids.take(n - 1));
    } else {
        assert(s =~= Seq::empty());
    }
    assert(records(ids, all, n) =~= s.filter(pred).map_values(
        |i: u32|
            InstanceData {
                m0: all[i as int].m0,
                m1: all[i as int].m1,
                m2: all[i as int].m2,
                flags: all[i as int].flags,
            },
    ));
}

/// The meshes below `n`.
pub open spec fn meshes_below(n: nat) -> Seq<int> {
    Seq::new(n, |i: int| i)
}

/// One draw for each mesh that has instances, can be decoded and is not empty, in their order.
pub proof fn meshes_with_instances_are_drawn(
    by_mesh: Seq<Vec<u32>>,
    meshes: Seq<MeshSize>,
    all: Seq<PackInstance>,
    n: nat,
)
    requires
        n <= by_mesh.len(),
        n <= meshes.len(),
    ensures
        draws(by_mesh, meshes, all, n) == meshes_below(n).filter(
            |k: int|
                by_mesh[k]@.len() > 0 && meshes[k].decoded && meshes[k].positions > 0 && meshes[k].indices > 0,
        ).map_values(|k: int| (k, records(by_mesh[k]@, all, by_mesh[k]@.len()))),
    decreases n,
{
    reveal(Seq::filter);
    let pred = |k: int|
        by_mesh[k]@.len() > 0 && meshes[k].decoded && meshes[k].positions > 0 && meshes[k].indices > 0;
    let f = |k: int| (k, records(by_mesh[k]@, all, by_mesh[k]@.len()));
    if n > 0 {
        meshes_with_instances_are_drawn(by_mesh, meshes, all, (n - 1) as nat);
        let before = meshes_below((n - 1) as nat);
        assert(meshes_below(n).drop_last() =~= before);
        assert(meshes_below(n).last() == n - 1);
        if pred(n - 1) {
            assert(meshes_below(n).filter(pred) =~= before.filter(pred).push(n - 1));
            assert(before.filter(pred).push(n - 1).map_values(f) =~= before.filter(pred).map_values(f).push(f(n - 1)));
        }
    } else {
        assert(meshes_below(n) =~= Seq::empty());
    }
    assert(draws(by_mesh, meshes, all, n) =~= meshes_below(n).filter(pred).map_values(f));
}

} // verus!
