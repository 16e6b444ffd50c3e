//! The small blocks of words that the shaders read each frame, and which of the nodes of a frame run.
use crate::f32bits::{float, F32, ONE};
use crate::gpu::draw::{dispatch_groups, groups_for, indirect_draw, DrawItem, IndirectDraw};
use crate::gpu::load::{is_one, setting_is_one, setting_text, ShadowSwitch};
use crate::gpu::materials::{V3, V4};
use crate::gpu::sh_volume::{checked_strength, strength_or, ShVolumeCpu};
use crate::settings::GfxSettings;
use vstd::prelude::*;

verus! {

/// The bits of 0.75, the distance in metres by which a shaded point is moved off its surface.
pub const NORMAL_BIAS: u32 = 0x3f40_0000;

/// The bits of 1.5, the smallest size in pixels of what is drawn where there are no settings.
pub const PLAIN_CULL_PX: u32 = 0x3fc0_0000;

/// The bits of 4.0, the same for grass.
pub const PLAIN_CULL_PX_GRASS: u32 = 0x4080_0000;

/// The bits of the largest float: no clump of grass is that large.
pub const LARGEST: u32 = 0x7f7f_ffff;

/// How many cascades the sun shadows have.
pub const SHADOW_CASCADES: u32 = 2;

/// The bits of 15.0, where the first cascade ends.
pub const SHADOW_SPLIT_NEAR: u32 = 0x4170_0000;

/// The bits of 80.0, where the second cascade ends.
pub const SHADOW_SPLIT_FAR: u32 = 0x42a0_0000;

/// The bits of 0.1, the share by which the cascades overlap.
pub const SHADOW_CASCADE_OVERLAP: u32 = 0x3dcc_cccd;

/// The bits of 0.12, the largest share of the baked light that a shadow takes away.
pub const SHADOW_DIFFUSE_CAP: u32 = 0x3df5_c28f;

/// The bits of 65.0, where shadows begin to fade.
pub const SHADOW_FADE_START: u32 = 0x4282_0000;

/// The bits of 80.0, where shadows have faded.
pub const SHADOW_FADE_END: u32 = 0x42a0_0000;

/// The bits of one 2048th, the width of a texel of the shadow map.
pub const SHADOW_TEXEL: u32 = 0x3a00_0000;

/// The words of four floats.
pub open spec fn words_of(v: V4) -> Seq<u32> {
    seq![v.x.bits, v.y.bits, v.z.bits, v.w.bits]
}

/// The words of the first `n` of several fours of floats.
pub open spec fn rows_of(vs: Seq<V4>, n: nat) -> Seq<u32>
    decreases n,
{
    if n == 0 {
        Seq::empty()
    } else {
        rows_of(vs, (n - 1) as nat) + words_of(vs[n - 1])
    }
}

pub(crate) fn push_row(out: &mut Vec<u32>, v: V4)
    ensures
        final(out)@ == old(out)@ + words_of(v),
{
    out.push(v.x.bits);
    out.push(v.y.bits);
    out.push(v.z.bits);
    out.push(v.w.bits);
    assert(out@ =~= old(out)@ + words_of(v));
}

fn push_rows(out: &mut Vec<u32>, vs: &Vec<V4>)
    ensures
        final(out)@ == old(out)@ + rows_of(vs@, vs@.len()),
{
    let ghost start = out@;
    let mut i: usize = 0;
    assert(out@ =~= start + rows_of(vs@, 0));
    while i < vs.len()
        invariant
            i <= vs@.len(),
            out@ == start + rows_of(vs@, i as nat),
        decreases vs@.len() - i,
    {
        push_row(out, vs[i]);
        i = i + 1;
        assert(out@ =~= start + rows_of(vs@, i as nat));
    }
}

proof fn rows_len(vs: Seq<V4>, n: nat)
    ensures
        rows_of(vs, n).len() == 4 * n,
    decreases n,
{
    if n > 0 {
        rows_len(vs, (n - 1) as nat);
    }
}

/// One record of the draw buffers.
#[derive(Clone, Copy, Debug, PartialEq, Eq, Structural)]
pub struct DrawIndexedIndirectArgs {
    pub index_count: u32,
    pub instance_count: u32,
    pub first_index: u32,
    /// The bits of the signed vertex offset.
    pub base_vertex: u32,
    pub first_instance: u32,
}

impl DrawIndexedIndirectArgs {
    /// The five words of the record: as many bytes as the stride of the buffers.
    pub fn words(self) -> (r: Vec<u32>)
        ensures
            r@ == seq![
                self.index_count,
                self.instance_count,
                self.first_index,
                self.base_vertex,
                self.first_instance,
            ],
            4 * r@.len() == crate::gpu::load::DRAW_ARG_STRIDE,
    {
        let r: Vec<u32> = vec![
            self.index_count,
            self.instance_count,
            self.first_index,
            self.base_vertex,
            self.first_instance,
        ];
        assert(r@ =~= seq![
            self.index_count,
            self.instance_count,
            self.first_index,
            self.base_vertex,
            self.first_instance,
        ]);
        r
    }
}

/// What the culling reads: the planes of the view, how many instances and meshes there are, where the
/// camera stands and the size thresholds.
pub struct CullUniform {
    /// Six planes that face inward.
    pub frustum: Vec<V4>,
    pub instances: u32,
    pub meshes: u32,
    /// The threshold of grass.
    pub k_grass: F32,
    /// Where the camera stands, and the threshold of all else.
    pub cam_k: V4,
}

impl CullUniform {
    pub open spec fn wf(self) -> bool {
        self.frustum@.len() == 6
    }

    /// The block in words.
    pub open spec fn layout(self) -> Seq<u32> {
        rows_of(self.frustum@, self.frustum@.len()) + seq![
            self.instances,
            self.meshes,
            self.k_grass.bits,
            0u32,
        ] + words_of(self.cam_k)
    }

    /// The block before the first view is known: planes and thresholds of zero, which cull nothing.
    pub fn seed(instances: u32, meshes: u32) -> (u: CullUniform)
        ensures
            u.wf(),
            u.frustum@ == Seq::new(6, |i: int| crate::gpu::materials::zero4()),
            u.instances == instances,
            u.meshes == meshes,
            u.k_grass == float(0),
            u.cam_k == crate::gpu::materials::zero4(),
    {
        let z = F32 { bits: 0 };
        let v = V4 { x: z, y: z, z, w: z };
        let frustum: Vec<V4> = vec![v, v, v, v, v, v];
        assert(frustum@ =~= Seq::new(6, |i: int| crate::gpu::materials::zero4()));
        CullUniform { frustum, instances, meshes, k_grass: z, cam_k: v }
    }

    /// The words of the block, 128 bytes.
    pub fn words(&self) -> (r: Vec<u32>)
        requires
            self.wf(),
        ensures
            r@ == self.layout(),
            4 * r@.len() == 128,
    {
        let mut r: Vec<u32> = Vec::new();
        push_rows(&mut r, &self.frustum);
        r.push(self.instances);
        r.push(self.meshes);
        r.push(self.k_grass.bits);
        r.push(0);
        push_row(&mut r, self.cam_k);
        proof {
            rows_len(self.frustum@, 6);
            assert(r@ =~= self.layout());
        }
        r
    }
}

/// The smallest sizes in pixels of what is drawn, in general and for grass. Without grass no clump
/// is large enough.
pub open spec fn pixel_sizes(g: Option<GfxSettings>) -> (F32, F32) {
    match g {
        Some(s) => (
            s.cull_px,
            if s.grass {
                s.cull_px_grass
            } else {
                float(LARGEST)
            },
        ),
        None => (float(PLAIN_CULL_PX), float(PLAIN_CULL_PX_GRASS)),
    }
}

/// The smallest sizes in pixels of what is drawn.
pub fn cull_pixels(g: Option<GfxSettings>) -> (r: (F32, F32))
    ensures
        r == pixel_sizes(g),
{
    match g {
        Some(s) => (
            s.cull_px,
            if s.grass {
                s.cull_px_grass
            } else {
                F32 { bits: LARGEST }
            },
        ),
        None => (F32 { bits: PLAIN_CULL_PX }, F32 { bits: PLAIN_CULL_PX_GRASS }),
    }
}

/// What the shaders read of the irradiance volume.
#[derive(Clone, Copy, Debug, PartialEq, Eq, Structural)]
pub struct ShVolumeUniform {
    /// The lower corner, and the strength of the light.
    pub vol_min: V4,
    /// One over the extent, and the distance off the surface.
    pub vol_inv_extent: V4,
    /// The number of probes along each axis.
    pub dims: V4,
    pub spacing: V4,
}

impl ShVolumeUniform {
    /// The block of a volume. `inv_extent` and `dims` are one over the extent and the numbers of
    /// probes as floats; `gi` is the strength that the environment asks for.
    pub fn of_volume(sh: &ShVolumeCpu, inv_extent: V3, dims: V3, gi: Option<F32>) -> (u: ShVolumeUniform)
        ensures
            u.vol_min == (V4 {
                x: sh.min.x,
                y: sh.min.y,
                z: sh.min.z,
                w: strength_or(gi, sh.gi_intensity),
            }),
            u.vol_inv_extent == (V4 {
                x: inv_extent.x,
                y: inv_extent.y,
                z: inv_extent.z,
                w: float(NORMAL_BIAS),
            }),
            u.dims == (V4 { x: dims.x, y: dims.y, z: dims.z, w: float(0) }),
            u.spacing == (V4 { x: sh.spacing.x, y: sh.spacing.y, z: sh.spacing.z, w: float(0) }),
    {
        let z = F32 { bits: 0 };
        ShVolumeUniform {
            vol_min: V4 {
                x: sh.min.x,
                y: sh.min.y,
                z: sh.min.z,
                w: checked_strength(gi, sh.gi_intensity),
            },
            vol_inv_extent: V4 {
                x: inv_extent.x,
                y: inv_extent.y,
                z: inv_extent.z,
                w: F32 { bits: NORMAL_BIAS },
            },
            dims: V4 { x: dims.x, y: dims.y, z: dims.z, w: z },
            spacing: V4 { x: sh.spacing.x, y: sh.spacing.y, z: sh.spacing.z, w: z },
        }
    }

    /// The words of the block, 64 bytes.
    pub fn words(self) -> (r: Vec<u32>)
        ensures
            r@ == words_of(self.vol_min) + words_of(self.vol_inv_extent) + words_of(self.dims)
                + words_of(self.spacing),
            4 * r@.len() == 64,
    {
        let mut r: Vec<u32> = Vec::new();
        push_row(&mut r, self.vol_min);
        push_row(&mut r, self.vol_inv_extent);
        push_row(&mut r, self.dims);
        push_row(&mut r, self.spacing);
        assert(r@ =~= words_of(self.vol_min) + words_of(self.vol_inv_extent) + words_of(self.dims)
            + words_of(self.spacing));
        r
    }
}

/// What the shaders read of the sun shadows.
pub struct SunShadowUniform {
    /// The columns of the matrices of the cascades.
    pub view_proj: Vec<V4>,
    pub split_depths: V4,
    pub sun_dir_texel: V4,
    /// How wide a texel of each cascade is in the world.
    pub texel_world: V4,
    pub combine: V4,
    /// The scales of fog, sky reflection and emission.
    pub gfx: V4,
}

/// One where a switch is on, else zero.
pub open spec fn switch_float(on: bool) -> F32 {
    if on {
        float(ONE)
    } else {
        float(0)
    }
}

fn switch_of(on: bool) -> (r: F32)
    ensures
        r == switch_float(on),
{
    if on {
        F32 { bits: ONE }
    } else {
        F32 { bits: 0 }
    }
}

/// The scales that the settings give; all one where there are none.
pub open spec fn scales_of(g: Option<GfxSettings>) -> V4 {
    match g {
        Some(s) => V4 { x: s.fog, y: s.sky_refl, z: s.emissive, w: float(0) },
        None => V4 { x: float(ONE), y: float(ONE), z: float(ONE), w: float(0) },
    }
}

fn gfx_scales(g: Option<GfxSettings>) -> (r: V4)
    ensures
        r == scales_of(g),
{
    let o = F32 { bits: ONE };
    let z = F32 { bits: 0 };
    match g {
        Some(s) => V4 { x: s.fog, y: s.sky_refl, z: s.emissive, w: z },
        None => V4 { x: o, y: o, z: o, w: z },
    }
}

impl SunShadowUniform {
    pub open spec fn wf(self) -> bool {
        self.view_proj@.len() == 8
    }

    /// The block in words.
    pub open spec fn layout(self) -> Seq<u32> {
        rows_of(self.view_proj@, self.view_proj@.len()) + words_of(self.split_depths) + words_of(
            self.sun_dir_texel,
        ) + words_of(self.texel_world) + words_of(self.combine) + words_of(self.gfx)
    }

    /// The block before the first frame: shadows are off whatever the switch says.
    pub fn seed(sun: V3, debug: bool) -> (u: SunShadowUniform)
        ensures
            u.wf(),
            u.view_proj@ == Seq::new(8, |i: int| crate::gpu::materials::zero4()),
            u.split_depths == crate::gpu::materials::zero4(),
            u.sun_dir_texel == (V4 { x: sun.x, y: sun.y, z: sun.z, w: float(SHADOW_TEXEL) }),
            u.texel_world == crate::gpu::materials::zero4(),
            u.combine == (V4 {
                x: float(SHADOW_DIFFUSE_CAP),
                y: float(SHADOW_FADE_START),
                z: float(SHADOW_FADE_END),
                w: switch_float(debug),
            }),
            u.gfx == scales_of(None),
    {
        let z = F32 { bits: 0 };
        let v = V4 { x: z, y: z, z, w: z };
        let view_proj: Vec<V4> = vec![v, v, v, v, v, v, v, v];
        assert(view_proj@ =~= Seq::new(8, |i: int| crate::gpu::materials::zero4()));
        SunShadowUniform {
            view_proj,
            split_depths: v,
            sun_dir_texel: V4 { x: sun.x, y: sun.y, z: sun.z, w: F32 { bits: SHADOW_TEXEL } },
            texel_world: v,
            combine: V4 {
                x: F32 { bits: SHADOW_DIFFUSE_CAP },
                y: F32 { bits: SHADOW_FADE_START },
                z: F32 { bits: SHADOW_FADE_END },
                w: switch_of(debug),
            },
            gfx: gfx_scales(None),
        }
    }

    /// The block of a frame, from the columns of its two matrices and the width of a texel of each.
    pub fn of_frame(
        view_proj: Vec<V4>,
        near_texel: F32,
        far_texel: F32,
        sun: V3,
        switch: ShadowSwitch,
        g: Option<GfxSettings>,
    ) -> (u: SunShadowUniform)
        requires
            view_proj@.len() == 8,
        ensures
            u.wf(),
            u.view_proj@ == view_proj@,
            u.split_depths == (V4 {
                x: float(SHADOW_SPLIT_NEAR),
                y: float(SHADOW_SPLIT_FAR),
                z: float(SHADOW_CASCADE_OVERLAP),
                w: switch_float(switch.enabled),
            }),
            u.sun_dir_texel == (V4 { x: sun.x, y: sun.y, z: sun.z, w: float(SHADOW_TEXEL) }),
            u.texel_world == (V4 { x: near_texel, y: far_texel, z: float(0), w: float(0) }),
            u.combine == (V4 {
                x: float(SHADOW_DIFFUSE_CAP),
                y: float(SHADOW_FADE_START),
                z: float(SHADOW_FADE_END),
                w: switch_float(switch.debug),
            }),
            u.gfx == scales_of(g),
    {
        let z = F32 { bits: 0 };
        SunShadowUniform {
            view_proj,
            split_depths: V4 {
                x: F32 { bits: SHADOW_SPLIT_NEAR },
                y: F32 { bits: SHADOW_SPLIT_FAR },
                z: F32 { bits: SHADOW_CASCADE_OVERLAP },
                w: switch_of(switch.enabled),
            },
            sun_dir_texel: V4 { x: sun.x, y: sun.y, z: sun.z, w: F32 { bits: SHADOW_TEXEL } },
            texel_world: V4 { x: near_texel, y: far_texel, z, w: z },
            combine: V4 {
                x: F32 { bits: SHADOW_DIFFUSE_CAP },
                y: F32 { bits: SHADOW_FADE_START },
                z: F32 { bits: SHADOW_FADE_END },
                w: switch_of(switch.debug),
            },
            gfx: gfx_scales(g),
        }
    }

    /// The words of the block, 208 bytes.
    pub fn words(&self) -> (r: Vec<u32>)
        requires
            self.wf(),
        ensures
            r@ == self.layout(),
            4 * r@.len() == 208,
    {
        let mut r: Vec<u32> = Vec::new();
        push_rows(&mut r, &self.view_proj);
        push_row(&mut r, self.split_depths);
        push_row(&mut r, self.sun_dir_texel);
        push_row(&mut r, self.texel_world);
        push_row(&mut r, self.combine);
        push_row(&mut r, self.gfx);
        proof {
            rows_len(self.view_proj@, 8);
            assert(r@ =~= self.layout());
        }
        r
    }
}

/// The words that the shadow pass reads of a cascade: its matrix, the sun with the width of a texel,
/// and whether grass casts shadows.
pub open spec fn cascade_layout(view_proj: Seq<V4>, sun: V3, grass: bool) -> Seq<u32> {
    rows_of(view_proj, view_proj.len()) + words_of(
        V4 { x: sun.x, y: sun.y, z: sun.z, w: float(SHADOW_TEXEL) },
    ) + words_of(V4 { x: switch_float(grass), y: float(0), z: float(0), w: float(0) })
}

/// The block of a cascade. Grass casts shadows only where the setting is 1.
pub fn cascade_words(view_proj: &Vec<V4>, sun: V3, grass_shadows: Option<&str>) -> (r: Vec<u32>)
    requires
        view_proj@.len() == 4,
    ensures
        r@ == cascade_layout(view_proj@, sun, is_one(setting_text(grass_shadows))),
        4 * r@.len() == 96,
{
    let z = F32 { bits: 0 };
    let mut r: Vec<u32> = Vec::new();
    push_rows(&mut r, view_proj);
    push_row(&mut r, V4 { x: sun.x, y: sun.y, z: sun.z, w: F32 { bits: SHADOW_TEXEL } });
    push_row(&mut r, V4 { x: switch_of(setting_is_one(grass_shadows)), y: z, z, w: z });
    proof {
        rows_len(view_proj@, 4);
        assert(r@ =~= cascade_layout(view_proj@, sun, is_one(setting_text(grass_shadows))));
    }
    r
}

/// The factors of the practical lights, of the indirect light and of the direct sun: none below zero,
/// and the lights dark where they are off.
pub fn light_factors(g: &GfxSettings) -> (r: V3)
    ensures
        r.x == if g.lights {
            g.light_intensity.larger(float(0))
        } else {
            float(0)
        },
        r.y == g.gi_intensity.larger(float(0)),
        r.z == g.sun_diffuse.larger(float(0)),
{
    let z = F32 { bits: 0 };
    V3 {
        x: if g.lights {
            g.light_intensity.max(z)
        } else {
            z
        },
        y: g.gi_intensity.max(z),
        z: g.sun_diffuse.max(z),
    }
}

/// What the culling dispatches, for the resetting of the records and for the instances; `None` where
/// it does not run. It runs for the view of the player alone, once the buffers and both pipelines are
/// there.
pub fn cull_dispatch(player: bool, buffers: bool, pipelines: bool, meshes: u32, instances: u32) -> (r:
    Option<(u32, u32)>)
    ensures
        r == (if player && buffers && pipelines {
            Some((groups_for(meshes) as u32, groups_for(instances) as u32))
        } else {
            None
        }),
{
    if player && buffers && pipelines {
        Some((dispatch_groups(meshes), dispatch_groups(instances)))
    } else {
        None
    }
}

/// How many layers of the shadow map are drawn: all of them for the view of the player, once the
/// resources and the pipeline are there and shadows are on; else none.
pub fn shadow_layers(player: bool, resources: bool, switch: ShadowSwitch, pipeline: bool) -> (n: u32)
    ensures
        n == if player && resources && switch.enabled && pipeline {
            SHADOW_CASCADES
        } else {
            0
        },
{
    if player && resources && switch.enabled && pipeline {
        SHADOW_CASCADES
    } else {
        0
    }
}

/// The draw of an item, or `None` where a buffer or a group that it binds is missing.
pub fn draw_gpu_driven(item: DrawItem, meshes: u32, bound: bool) -> (r: Option<IndirectDraw>)
    ensures
        r is Some == bound,
        r matches Some(d) ==> d == crate::gpu::draw::draw_of(item, meshes),
{
    if bound {
        Some(indirect_draw(item, meshes))
    } else {
        None
    }
}

} // verus!
