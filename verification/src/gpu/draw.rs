//! What is drawn in a frame, in which order and with which pipeline state.
use crate::gpu::load::{DRAW_ARG_STRIDE, DRAW_VERTEX_STRIDE};
use crate::gpu::meshes::{
    BlendMesh, BLEND_MESH_OVERLAY, BLEND_MESH_SOFTCUTOUT, BLEND_MESH_TRANSPARENT,
};
use vstd::prelude::*;

verus! {

/// The pipelines that the meshes are drawn with.
#[derive(Clone, Copy, Debug, PartialEq, Eq, Structural)]
pub enum DrawPass {
    /// All that is not blended.
    Opaque,
    /// Glass and other transparency.
    Blend,
    /// Decals and puddles.
    Overlay,
    /// The depth of feathering decals, behind their colour.
    DecalDepth,
    /// The colour of feathering decals.
    DecalColor,
}

/// Where an item stands in the order of a frame.
#[derive(Clone, Copy, Debug, PartialEq, Eq, Structural)]
pub enum DrawOrder {
    /// Before everything else: it writes the depth that the others are tested against.
    First,
    /// At a fixed place that does not depend on the camera, the larger number first.
    Fixed(u64),
    /// By the distance to the camera, the farther first, and before the next nearer one at the same
    /// distance when `ahead`.
    ByDistance { ahead: bool },
}

/// One item of a frame. Without a mesh it draws all meshes.
#[derive(Clone, Copy, Debug, PartialEq, Eq, Structural)]
pub struct DrawItem {
    pub pass: DrawPass,
    pub order: DrawOrder,
    pub mesh: Option<u32>,
}

/// The place of the depth of feathering decals.
pub const DECAL_DEPTH_PLACE: u64 = 1_500_000;

/// The first place of the colours of feathering decals.
pub const DECAL_COLOR_PLACE: u64 = 2_000_000;

/// Whether a pass is among the passes of a mesh.
pub open spec fn has_pass(passes: u32, pass: u32) -> bool {
    (passes / pass) % 2 == 1
}

/// The item of a blended mesh.
pub open spec fn mesh_item(m: BlendMesh, pass: DrawPass, order: DrawOrder) -> Seq<DrawItem> {
    seq![DrawItem { pass, order, mesh: Some(m.mesh) }]
}

/// The items of one blended mesh: a feathering decal first its colour, then its depth; overlays and
/// transparency by distance.
pub open spec fn mesh_items(m: BlendMesh) -> Seq<DrawItem> {
    (if has_pass(m.passes, BLEND_MESH_SOFTCUTOUT) {
        mesh_item(
            m,
            DrawPass::DecalColor,
            DrawOrder::Fixed((DECAL_COLOR_PLACE + m.mesh) as u64),
        ) + mesh_item(m, DrawPass::DecalDepth, DrawOrder::Fixed(DECAL_DEPTH_PLACE))
    } else {
        Seq::empty()
    }) + (if has_pass(m.passes, BLEND_MESH_OVERLAY) {
        mesh_item(m, DrawPass::Overlay, DrawOrder::ByDistance { ahead: true })
    } else {
        Seq::empty()
    }) + (if has_pass(m.passes, BLEND_MESH_TRANSPARENT) {
        mesh_item(m, DrawPass::Blend, DrawOrder::ByDistance { ahead: false })
    } else {
        Seq::empty()
    })
}

/// The items of the first `k` blended meshes.
pub open spec fn blend_items(ms: Seq<BlendMesh>, k: nat) -> Seq<DrawItem>
    decreases k,
{
    if k == 0 {
        Seq::empty()
    } else {
        blend_items(ms, (k - 1) as nat) + mesh_items(ms[k - 1])
    }
}

/// The item that draws all that is opaque.
pub open spec fn opaque_item() -> DrawItem {
    DrawItem { pass: DrawPass::Opaque, order: DrawOrder::First, mesh: None }
}

/// The items of a frame: one for all that is opaque, then those of the blended meshes.
pub fn queue_gpu_driven(ms: &Vec<BlendMesh>) -> (r: Vec<DrawItem>)
    ensures
        r@ == seq![opaque_item()] + blend_items(ms@, ms@.len()),
{
    let mut r: Vec<DrawItem> = Vec::new();
    r.push(DrawItem { pass: DrawPass::Opaque, order: DrawOrder::First, mesh: None });
    let mut i: usize = 0;
    proof {
        assert(r@ =~= seq![opaque_item()] + blend_items(ms@, 0));
    }
    while i < ms.len()
        invariant
            i <= ms@.len(),
            r@ == seq![opaque_item()] + blend_items(ms@, i as nat),
        decreases ms@.len() - i,
    {
        let m = ms[i];
        let ghost before = r@;
        if (m.passes / BLEND_MESH_SOFTCUTOUT) % 2 == 1 {
            r.push(
                DrawItem {
                    pass: DrawPass::DecalColor,
                    order: DrawOrder::Fixed(DECAL_COLOR_PLACE + m.mesh as u64),
                    mesh: Some(m.mesh),
                },
            );
            r.push(
                DrawItem {
                    pass: DrawPass::DecalDepth,
                    order: DrawOrder::Fixed(DECAL_DEPTH_PLACE),
                    mesh: Some(m.mesh),
                },
            );
        }
        if (m.passes / BLEND_MESH_OVERLAY) % 2 == 1 {
            r.push(
                DrawItem {
                    pass: DrawPass::Overlay,
                    order: DrawOrder::ByDistance { ahead: true },
                    mesh: Some(m.mesh),
                },
            );
        }
        if (m.passes / BLEND_MESH_TRANSPARENT) % 2 == 1 {
            r.push(
                DrawItem {
                    pass: DrawPass::Blend,
                    order: DrawOrder::ByDistance { ahead: false },
                    mesh: Some(m.mesh),
                },
            );
        }
        i = i + 1;
        proof {
            assert(r@ =~= before + mesh_items(m));
            assert(r@ =~= seq![opaque_item()] + blend_items(ms@, i as nat));
        }
    }
    r
}

/// Whether item `a` is drawn before item `b` whatever the camera does.
pub open spec fn always_before(a: DrawOrder, b: DrawOrder) -> bool {
    match (a, b) {
        (DrawOrder::First, DrawOrder::First) => false,
        (DrawOrder::First, _) => true,
        (DrawOrder::Fixed(x), DrawOrder::Fixed(y)) => x > y,
        (DrawOrder::Fixed(_), DrawOrder::ByDistance { .. }) => true,
        _ => false,
    }
}

/// Whatever the camera does: the opaque parts come before everything, the colours of all feathering
/// decals before the depth of any, and both before everything that is sorted by distance; and the
/// colours of two decals keep their order.
pub proof fn decals_keep_their_order(a: BlendMesh, b: BlendMesh)
    ensures
        always_before(
            DrawOrder::First,
            DrawOrder::Fixed((DECAL_COLOR_PLACE + a.mesh) as u64),
        ),
        always_before(
            DrawOrder::Fixed((DECAL_COLOR_PLACE + a.mesh) as u64),
            DrawOrder::Fixed(DECAL_DEPTH_PLACE),
        ),
        always_before(
            DrawOrder::Fixed(DECAL_DEPTH_PLACE),
            DrawOrder::ByDistance { ahead: true },
        ),
        a.mesh != b.mesh ==> (always_before(
            DrawOrder::Fixed((DECAL_COLOR_PLACE + a.mesh) as u64),
            DrawOrder::Fixed((DECAL_COLOR_PLACE + b.mesh) as u64),
        ) <==> a.mesh > b.mesh),
{
}

/// A slot of a pipeline: what is bound there while it draws.
#[derive(Clone, Copy, Debug, PartialEq, Eq, Structural)]
pub enum LayoutSlot {
    /// The camera.
    View,
    /// The instances, and which of them are visible.
    Storage,
    /// The materials with their textures.
    Material,
    /// The volume of light, the sun's shadows and the lamps.
    Volume,
}

/// The state of a pipeline.
pub struct PassState {
    pub label: &'static str,
    /// Premultiplied alpha blending; without it the colour is replaced.
    pub blend: bool,
    pub depth_write: bool,
    pub color_write: bool,
    pub shader_defs: Vec<&'static str>,
    pub alpha_to_coverage: bool,
    pub samples: u32,
    /// Whether the target has the high dynamic range format.
    pub hdr: bool,
    /// Whether triangles that face away are left out.
    pub cull: bool,
    /// Whether only what is at least as near as what is there is drawn. Depth is 1 at the near plane
    /// and falls with the distance.
    pub at_least_as_near: bool,
    /// By how much the rasteriser moves the depth.
    pub depth_bias: i32,
    /// The slots, in the order of their numbers.
    pub layouts: Vec<LayoutSlot>,
}

/// The texts of a list of definitions.
pub open spec fn defs_text(v: Seq<&'static str>) -> Seq<Seq<char>> {
    Seq::new(v.len(), |i: int| v[i]@)
}

/// The label of a pipeline.
pub open spec fn pass_label(p: DrawPass) -> Seq<char> {
    match p {
        DrawPass::Opaque => "eft_gpu_draw_opaque"@,
        DrawPass::Blend => "eft_gpu_draw_blend"@,
        DrawPass::Overlay => "eft_gpu_draw_overlay"@,
        DrawPass::DecalDepth => "eft_gpu_draw_decal_depth"@,
        DrawPass::DecalColor => "eft_gpu_draw_decal_color"@,
    }
}

/// The shader definitions of a pipeline.
pub open spec fn pass_defs(p: DrawPass) -> Seq<Seq<char>> {
    match p {
        DrawPass::Opaque => Seq::empty(),
        DrawPass::Blend => seq!["BLEND_PASS"@],
        DrawPass::Overlay => seq!["BLEND_PASS"@, "OVERLAY_PASS"@, "DECAL_NDC_PUSH"@],
        DrawPass::DecalDepth => seq!["DECAL_DEPTH_PASS"@],
        DrawPass::DecalColor => seq!["BLEND_PASS"@, "DECAL_COLOR_PASS"@, "DECAL_NDC_PUSH"@],
    }
}

/// Whether a pass writes depth: the opaque pass and the depth of decals do, and both leave the colour
/// unblended.
pub open spec fn writes_depth(p: DrawPass) -> bool {
    p is Opaque || p is DecalDepth
}

/// The state of the pipeline of a pass, for a target with the given samples and format.
pub fn specialize(pass: DrawPass, samples: u32, hdr: bool) -> (r: PassState)
    ensures
        r.label@ == pass_label(pass),
        r.blend == !writes_depth(pass),
        r.depth_write == writes_depth(pass),
        r.color_write == !(pass is DecalDepth),
        defs_text(r.shader_defs@) == pass_defs(pass),
        r.alpha_to_coverage == (writes_depth(pass) && samples > 1),
        r.samples == samples,
        r.hdr == hdr,
        !r.cull,
        r.at_least_as_near,
        r.depth_bias == 0,
        r.layouts@ == seq![
            LayoutSlot::View,
            LayoutSlot::Storage,
            LayoutSlot::Material,
            LayoutSlot::Volume,
        ],
{
    let layouts = vec![
        LayoutSlot::View,
        LayoutSlot::Storage,
        LayoutSlot::Material,
        LayoutSlot::Volume,
    ];
    let mut shader_defs: Vec<&'static str> = Vec::new();
    let label = match pass {
        DrawPass::Opaque => "eft_gpu_draw_opaque",
        DrawPass::Blend => {
            shader_defs.push("BLEND_PASS");
            "eft_gpu_draw_blend"
        },
        DrawPass::Overlay => {
            shader_defs.push("BLEND_PASS");
            shader_defs.push("OVERLAY_PASS");
            shader_defs.push("DECAL_NDC_PUSH");
            "eft_gpu_draw_overlay"
        },
        DrawPass::DecalDepth => {
            shader_defs.push("DECAL_DEPTH_PASS");
            "eft_gpu_draw_decal_depth"
        },
        DrawPass::DecalColor => {
            shader_defs.push("BLEND_PASS");
            shader_defs.push("DECAL_COLOR_PASS");
            shader_defs.push("DECAL_NDC_PUSH");
            "eft_gpu_draw_decal_color"
        },
    };
    proof {
        assert(defs_text(shader_defs@) =~= pass_defs(pass));
    }
    let depth = pass == DrawPass::Opaque || pass == DrawPass::DecalDepth;
    PassState {
        label,
        blend: !depth,
        depth_write: depth,
        color_write: pass != DrawPass::DecalDepth,
        shader_defs,
        alpha_to_coverage: depth && samples > 1,
        samples,
        hdr,
        cull: false,
        at_least_as_near: true,
        depth_bias: 0,
        layouts,
    }
}

/// An attribute of a packed vertex: how many words, at which byte, for which shader location; words
/// are floats, but for the material.
#[derive(Clone, Copy, Debug, PartialEq, Eq, Structural)]
pub struct Attribute {
    pub words: u32,
    pub offset: u64,
    pub location: u32,
    pub integer: bool,
}

/// The attributes of a packed vertex.
pub open spec fn attributes() -> Seq<Attribute> {
    seq![
        Attribute { words: 3, offset: 0, location: 0, integer: false },
        Attribute { words: 3, offset: 12, location: 1, integer: false },
        Attribute { words: 2, offset: 24, location: 2, integer: false },
        Attribute { words: 1, offset: 32, location: 3, integer: true },
        Attribute { words: 4, offset: 36, location: 4, integer: false },
    ]
}

/// The attributes of a packed vertex: position, normal, texture coordinate, material, colour.
pub fn vertex_attributes() -> (r: Vec<Attribute>)
    ensures
        r@ == attributes(),
{
    let r = vec![
        Attribute { words: 3, offset: 0, location: 0, integer: false },
        Attribute { words: 3, offset: 12, location: 1, integer: false },
        Attribute { words: 2, offset: 24, location: 2, integer: false },
        Attribute { words: 1, offset: 32, location: 3, integer: true },
        Attribute { words: 4, offset: 36, location: 4, integer: false },
    ];
    proof {
        assert(r@ =~= attributes());
    }
    r
}

/// The attributes follow each other without gap and fill the vertex.
pub proof fn attributes_fill_the_vertex(i: int)
    requires
        0 <= i < 5,
    ensures
        attributes()[0].offset == 0,
        i < 4 ==> attributes()[i].offset + 4 * attributes()[i].words == attributes()[i + 1].offset,
        attributes()[4].offset + 4 * attributes()[4].words == DRAW_VERTEX_STRIDE,
{
}

/// The number of groups of 64 threads that take care of `n` items, one thread for each.
pub open spec fn groups_for(n: u32) -> int {
    (n + 63) / 64
}

/// How many groups of 64 threads take care of `n` items.
pub fn dispatch_groups(n: u32) -> (r: u32)
    ensures
        r == groups_for(n),
{
    if n % 64 == 0 {
        n / 64
    } else {
        n / 64 + 1
    }
}

/// The draw of an item: from which of the two record buffers, from which byte on, how many records.
#[derive(Clone, Copy, Debug, PartialEq, Eq, Structural)]
pub struct IndirectDraw {
    pub blended: bool,
    pub offset: u64,
    pub count: u32,
}

/// The draw of an item: a blended mesh draws its own record, the opaque item all of them.
pub open spec fn draw_of(item: DrawItem, meshes: u32) -> IndirectDraw {
    match item.mesh {
        Some(m) => IndirectDraw { blended: true, offset: (m * DRAW_ARG_STRIDE) as u64, count: 1 },
        None => IndirectDraw { blended: false, offset: 0, count: meshes },
    }
}

/// The draw of an item.
pub fn indirect_draw(item: DrawItem, meshes: u32) -> (r: IndirectDraw)
    ensures
        r == draw_of(item, meshes),
{
    match item.mesh {
        Some(m) => IndirectDraw { blended: true, offset: m as u64 * DRAW_ARG_STRIDE, count: 1 },
        None => IndirectDraw { blended: false, offset: 0, count: meshes },
    }
}

} // verus!
