//! Geometry for the GPU: all meshes of a pack in one vertex buffer and one index buffer, and their
//! instances in one list, grouped by mesh.
use crate::bytes::{read_le32, word_at};
use crate::f32bits::{float, F32, ONE};
use crate::gpu::materials::{GpuMaterial, NO_ALBEDO, V3, V4};
use vstd::prelude::*;

verus! {

/// A mesh has parts in the feathering pass.
pub const BLEND_MESH_SOFTCUTOUT: u32 = 1;

/// A mesh has parts in the overlay pass (decals and puddles).
pub const BLEND_MESH_OVERLAY: u32 = 2;

/// A mesh has parts in the transparent pass.
pub const BLEND_MESH_TRANSPARENT: u32 = 4;

/// Where the attributes of a vertex stand in the mesh file.
pub struct VertexLayout {
    pub stride: u32,
    pub position: u32,
    pub normal: Option<u32>,
    pub uv: Option<u32>,
    pub color: Option<u32>,
}

impl VertexLayout {
    /// Every attribute lies inside the stride.
    pub open spec fn wf(&self) -> bool {
        &&& self.position + 12 <= self.stride
        &&& self.normal matches Some(o) ==> o + 12 <= self.stride
        &&& self.uv matches Some(o) ==> o + 8 <= self.stride
        &&& self.color matches Some(o) ==> o + 4 <= self.stride
    }
}

/// A texture coordinate.
#[derive(Clone, Copy, Debug, PartialEq, Eq, Structural)]
pub struct Uv {
    pub u: F32,
    pub v: F32,
}

/// The bits of 15: over how many metres the texture of water must reach for it to be projected.
pub const PUDDLE_STRETCH_MIN: u32 = 0x4170_0000;

/// The bits of 3: how many metres wide water must be for its texture to be projected.
pub const PUDDLE_MIN_WIDTH_M: u32 = 0x4040_0000;

/// How long a box of extents `x`, `y` and `z` is along an axis.
pub open spec fn extent_along(x: F32, y: F32, z: F32, axis: int) -> F32 {
    if axis == 0 {
        x
    } else if axis == 1 {
        y
    } else {
        z
    }
}

/// Along which two axes a box is longest, the longest first; of axes of one length the first counts
/// as longer. A puddle is laid onto the plane of these two.
pub fn two_longest(x: F32, y: F32, z: F32) -> (r: (usize, usize))
    requires
        !x.nan(),
        !y.nan(),
        !z.nan(),
    ensures
        r.0 < 3,
        r.1 < 3,
        r.0 != r.1,
        forall|j: int| 0 <= j < 3 ==> !extent_along(x, y, z, r.0 as int).lt(#[trigger] extent_along(x, y, z, j)),
        forall|j: int| 0 <= j < r.0 ==> (#[trigger] extent_along(x, y, z, j)).lt(extent_along(x, y, z, r.0 as int)),
        forall|j: int|
            0 <= j < 3 && j != r.0 ==> !extent_along(x, y, z, r.1 as int).lt(#[trigger] extent_along(x, y, z, j)),
        forall|j: int|
            0 <= j < r.1 && j != r.0 ==> (#[trigger] extent_along(x, y, z, j)).lt(extent_along(x, y, z, r.1 as int)),
{
    let (first, second): (usize, usize) = if x.less(y) {
        (1, 0)
    } else {
        (0, 1)
    };
    let (long, short) = if x.less(y) {
        (y, x)
    } else {
        (x, y)
    };
    if long.less(z) {
        (2, first)
    } else if short.less(z) {
        (first, 2)
    } else {
        (first, second)
    }
}

/// How the texture of a part may be laid onto its plane: over how many metres it reaches as it is,
/// how wide the part is along its second axis, and the planar coordinate of each vertex of the mesh.
pub struct Projection {
    pub metres_per_tile: F32,
    pub width: F32,
    pub uvs: Vec<Uv>,
}

impl Projection {
    /// Whether the part is a wide strip with a stretched texture.
    pub open spec fn wanted(self) -> bool {
        !self.metres_per_tile.lt(float(PUDDLE_STRETCH_MIN)) && !self.width.lt(float(PUDDLE_MIN_WIDTH_M))
    }

    fn is_wanted(&self) -> (r: bool)
        ensures
            r == self.wanted(),
    {
        !self.metres_per_tile.less(F32 { bits: PUDDLE_STRETCH_MIN }) && !self.width.less(
            F32 { bits: PUDDLE_MIN_WIDTH_M },
        )
    }
}

/// A part of a mesh: a run of its indices with one material, and how its texture may be projected;
/// none where the part has no finite extent.
pub struct SubMeshIn {
    pub material_id: u32,
    pub idx_start: u32,
    pub idx_count: u32,
    pub projected: Option<Projection>,
}

/// An instance: the rows of its transform, its flags, and its bounding sphere in the world.
#[derive(Clone, Copy, Debug, PartialEq, Eq, Structural)]
pub struct InstanceIn {
    pub m0: V4,
    pub m1: V4,
    pub m2: V4,
    pub flags: u32,
    pub sphere: V4,
}

/// A mesh of a pack, with its instances.
pub struct MeshIn {
    pub vtx_offset: u64,
    pub vtx_count: u32,
    pub idx_offset: u64,
    pub idx_count: u32,
    pub submeshes: Vec<SubMeshIn>,
    pub instances: Vec<InstanceIn>,
}

/// An instance as the GPU holds it. `kind` is 1 for grass, else 0.
#[derive(Clone, Copy, Debug, PartialEq, Eq, Structural)]
pub struct InstanceGpuRecord {
    pub m0: V4,
    pub m1: V4,
    pub m2: V4,
    pub mesh: u32,
    pub flags: u32,
    pub kind: u32,
    pub sphere: V4,
}

/// Where the data of a mesh stand in the buffers. The class is 0 for opaque parts only, 1 for blended
/// parts only, 2 for both.
#[derive(Clone, Copy, Debug, PartialEq, Eq, Structural)]
pub struct MeshMeta {
    pub index_count: u32,
    pub first_index: u32,
    pub base_vertex: i32,
    pub instance_base: u32,
    pub instance_count: u32,
    pub blend_class: u32,
}

/// A mesh with blended parts: the mesh, the centre by which its draws are sorted, and the passes that
/// it has parts in.
#[derive(Clone, Copy, Debug, PartialEq, Eq, Structural)]
pub struct BlendMesh {
    pub mesh: u32,
    pub center: V3,
    pub passes: u32,
}

/// The float at position `k` of the mesh file.
pub open spec fn float_at(bin: Seq<u8>, k: int) -> F32 {
    float(word_at(bin, k))
}

/// Whether a mesh is packed: something references it, it is not empty, and its bytes are there.
pub open spec fn is_packed(bin: Seq<u8>, layout: VertexLayout, m: MeshIn) -> bool {
    &&& m.instances@.len() > 0
    &&& m.vtx_count > 0
    &&& m.idx_count > 0
    &&& m.vtx_offset + m.vtx_count * layout.stride <= bin.len()
    &&& m.idx_offset + m.idx_count * 4 <= bin.len()
}

/// The indices of a mesh.
pub open spec fn mesh_indices(bin: Seq<u8>, m: MeshIn) -> Seq<u32> {
    Seq::new(m.idx_count as nat, |i: int| word_at(bin, m.idx_offset + i * 4))
}

/// Whether one of the indices `a..b` is `v`.
pub open spec fn run_holds(idx: Seq<u32>, a: int, b: int, v: int) -> bool {
    exists|i: int| a <= i < b && i < idx.len() && #[trigger] idx[i] == v
}

/// Whether a part of a mesh uses vertex `v`.
pub open spec fn part_uses(idx: Seq<u32>, s: SubMeshIn, v: int) -> bool {
    run_holds(idx, s.idx_start as int, s.idx_start + s.idx_count, v)
}

/// The material of vertex `v` among the first `k` parts: that of the last part that uses it, else that
/// of the first part.
pub open spec fn vertex_material(idx: Seq<u32>, subs: Seq<SubMeshIn>, v: int, k: nat) -> u32
    decreases k,
{
    if k == 0 {
        if subs.len() > 0 {
            subs[0].material_id
        } else {
            0
        }
    } else if part_uses(idx, subs[k - 1], v) {
        subs[k - 1].material_id
    } else {
        vertex_material(idx, subs, v, (k - 1) as nat)
    }
}

/// Whether a material is water with a texture.
pub open spec fn textured_water(recs: Seq<GpuMaterial>, id: u32) -> bool {
    id < recs.len() && recs[id as int].flags.water && recs[id as int].albedo_index != NO_ALBEDO
}

/// Whether a part projects vertex `v`: it is a stretched strip of textured water, it uses the vertex,
/// and the vertex has its material.
pub open spec fn part_projects(
    recs: Seq<GpuMaterial>,
    idx: Seq<u32>,
    subs: Seq<SubMeshIn>,
    v: int,
    s: SubMeshIn,
) -> bool {
    &&& textured_water(recs, s.material_id)
    &&& s.projected matches Some(p) && p.wanted() && v < p.uvs@.len()
    &&& part_uses(idx, s, v)
    &&& vertex_material(idx, subs, v, subs.len()) == s.material_id
}

/// The texture coordinate of vertex `v` that the mesh file gives.
pub open spec fn stored_uv(bin: Seq<u8>, layout: VertexLayout, m: MeshIn, v: int) -> Uv {
    match layout.uv {
        Some(o) => {
            let b = m.vtx_offset + v * layout.stride + o;
            Uv { u: float_at(bin, b), v: float_at(bin, b + 4) }
        },
        None => Uv { u: float(0), v: float(0) },
    }
}

/// The texture coordinate of vertex `v` once the first `k` parts have projected theirs.
pub open spec fn vertex_uv(
    bin: Seq<u8>,
    layout: VertexLayout,
    m: MeshIn,
    recs: Seq<GpuMaterial>,
    v: int,
    k: nat,
) -> Uv
    decreases k,
{
    let subs = m.submeshes@;
    if k == 0 {
        stored_uv(bin, layout, m, v)
    } else if part_projects(recs, mesh_indices(bin, m), subs, v, subs[k - 1]) {
        subs[k - 1].projected->0.uvs@[v]
    } else {
        vertex_uv(bin, layout, m, recs, v, (k - 1) as nat)
    }
}

/// The normal of the vertex whose bytes begin at `base`; up where the mesh file has none.
pub open spec fn vertex_normal(bin: Seq<u8>, layout: VertexLayout, base: int) -> V3 {
    match layout.normal {
        Some(o) => V3 {
            x: float_at(bin, base + o),
            y: float_at(bin, base + o + 4),
            z: float_at(bin, base + o + 8),
        },
        None => V3 { x: float(0), y: float(ONE), z: float(0) },
    }
}

/// The colour of the vertex whose bytes begin at `base`; white where the mesh file has none.
pub open spec fn vertex_color(
    bin: Seq<u8>,
    layout: VertexLayout,
    unorm: Seq<F32>,
    base: int,
) -> V4 {
    match layout.color {
        Some(o) => V4 {
            x: unorm[bin[base + o] as int],
            y: unorm[bin[base + o + 1] as int],
            z: unorm[bin[base + o + 2] as int],
            w: unorm[bin[base + o + 3] as int],
        },
        None => V4 { x: float(ONE), y: float(ONE), z: float(ONE), w: float(ONE) },
    }
}

/// The thirteen words of vertex `v`. `unorm` gives the float of each byte value of a colour.
pub open spec fn vertex_words(
    bin: Seq<u8>,
    layout: VertexLayout,
    m: MeshIn,
    recs: Seq<GpuMaterial>,
    unorm: Seq<F32>,
    v: int,
) -> Seq<F32> {
    let base = m.vtx_offset + v * layout.stride;
    let p = base + layout.position;
    let uv = vertex_uv(bin, layout, m, recs, v, m.submeshes@.len());
    let mat = vertex_material(mesh_indices(bin, m), m.submeshes@, v, m.submeshes@.len());
    let n = vertex_normal(bin, layout, base);
    let c = vertex_color(bin, layout, unorm, base);
    seq![
        float_at(bin, p),
        float_at(bin, p + 4),
        float_at(bin, p + 8),
        n.x,
        n.y,
        n.z,
        uv.u,
        uv.v,
        float(mat),
        c.x,
        c.y,
        c.z,
        c.w,
    ]
}

/// The words of the first `k` vertices.
pub open spec fn vertices_words(
    bin: Seq<u8>,
    layout: VertexLayout,
    m: MeshIn,
    recs: Seq<GpuMaterial>,
    unorm: Seq<F32>,
    k: nat,
) -> Seq<F32>
    decreases k,
{
    if k == 0 {
        Seq::empty()
    } else {
        vertices_words(bin, layout, m, recs, unorm, (k - 1) as nat) + vertex_words(
            bin,
            layout,
            m,
            recs,
            unorm,
            k - 1,
        )
    }
}

/// Whether a part is blended.
pub open spec fn part_blends(recs: Seq<GpuMaterial>, s: SubMeshIn) -> bool {
    s.material_id < recs.len() && recs[s.material_id as int].flags.blend
}

/// The pass that a blended part belongs to.
pub open spec fn part_pass(recs: Seq<GpuMaterial>, s: SubMeshIn) -> u32 {
    let c = recs[s.material_id as int].flags;
    if c.softcutout {
        BLEND_MESH_SOFTCUTOUT
    } else if c.decal || c.water {
        BLEND_MESH_OVERLAY
    } else {
        BLEND_MESH_TRANSPARENT
    }
}

/// Whether some part is blended and belongs to the given pass.
pub open spec fn in_pass(recs: Seq<GpuMaterial>, subs: Seq<SubMeshIn>, pass: u32) -> bool {
    exists|i: int|
        0 <= i < subs.len() && part_blends(recs, #[trigger] subs[i]) && part_pass(recs, subs[i])
            == pass
}

/// The passes that a mesh has parts in.
pub open spec fn mesh_passes(recs: Seq<GpuMaterial>, subs: Seq<SubMeshIn>) -> int {
    (if in_pass(recs, subs, BLEND_MESH_SOFTCUTOUT) {
        1int
    } else {
        0int
    }) + (if in_pass(recs, subs, BLEND_MESH_OVERLAY) {
        2int
    } else {
        0int
    }) + (if in_pass(recs, subs, BLEND_MESH_TRANSPARENT) {
        4int
    } else {
        0int
    })
}

/// Whether some part is blended.
pub open spec fn some_blend(recs: Seq<GpuMaterial>, subs: Seq<SubMeshIn>) -> bool {
    exists|i: int| 0 <= i < subs.len() && part_blends(recs, #[trigger] subs[i])
}

/// Whether some part is opaque.
pub open spec fn some_opaque(recs: Seq<GpuMaterial>, subs: Seq<SubMeshIn>) -> bool {
    exists|i: int| 0 <= i < subs.len() && !part_blends(recs, #[trigger] subs[i])
}

/// The class of a mesh.
pub open spec fn mesh_class(recs: Seq<GpuMaterial>, subs: Seq<SubMeshIn>) -> u32 {
    if !some_blend(recs, subs) {
        0
    } else if !some_opaque(recs, subs) {
        1
    } else {
        2
    }
}

/// The buffers.
pub struct Packed {
    pub vertex_data: Vec<F32>,
    pub index_data: Vec<u32>,
    pub instances: Vec<InstanceGpuRecord>,
    pub mesh_meta: Vec<MeshMeta>,
    pub blend_meshes: Vec<BlendMesh>,
    /// The number of vertices.
    pub vertices: u32,
}

/// What the buffers hold.
#[verifier::ext_equal]
pub struct PackedModel {
    pub vertex_data: Seq<F32>,
    pub index_data: Seq<u32>,
    pub instances: Seq<InstanceGpuRecord>,
    pub mesh_meta: Seq<MeshMeta>,
    pub blend_meshes: Seq<BlendMesh>,
    pub vertices: int,
}

impl View for Packed {
    type V = PackedModel;

    open spec fn view(&self) -> PackedModel {
        PackedModel {
            vertex_data: self.vertex_data@,
            index_data: self.index_data@,
            instances: self.instances@,
            mesh_meta: self.mesh_meta@,
            blend_meshes: self.blend_meshes@,
            vertices: self.vertices as int,
        }
    }
}

/// Empty buffers.
pub open spec fn empty_pack() -> PackedModel {
    PackedModel {
        vertex_data: Seq::empty(),
        index_data: Seq::empty(),
        instances: Seq::empty(),
        mesh_meta: Seq::empty(),
        blend_meshes: Seq::empty(),
        vertices: 0,
    }
}

/// The instances of a mesh as the GPU holds them.
pub open spec fn instance_records(insts: Seq<InstanceIn>, mesh: u32) -> Seq<InstanceGpuRecord> {
    Seq::new(
        insts.len(),
        |i: int|
            InstanceGpuRecord {
                m0: insts[i].m0,
                m1: insts[i].m1,
                m2: insts[i].m2,
                mesh,
                flags: insts[i].flags,
                kind: 0,
                sphere: insts[i].sphere,
            },
    )
}

/// The buffers with one more mesh in them; a mesh that is not packed changes nothing.
pub open spec fn with_mesh(
    p: PackedModel,
    bin: Seq<u8>,
    layout: VertexLayout,
    m: MeshIn,
    recs: Seq<GpuMaterial>,
    unorm: Seq<F32>,
) -> PackedModel {
    if !is_packed(bin, layout, m) {
        p
    } else {
        let id = p.mesh_meta.len() as u32;
        let class = mesh_class(recs, m.submeshes@);
        let s = m.instances@[0].sphere;
        PackedModel {
            vertex_data: p.vertex_data + vertices_words(
                bin,
                layout,
                m,
                recs,
                unorm,
                m.vtx_count as nat,
            ),
            index_data: p.index_data + mesh_indices(bin, m),
            instances: p.instances + instance_records(m.instances@, id),
            mesh_meta: p.mesh_meta.push(
                MeshMeta {
                    index_count: m.idx_count,
                    first_index: p.index_data.len() as u32,
                    base_vertex: p.vertices as u32 as i32,
                    instance_base: p.instances.len() as u32,
                    instance_count: m.instances@.len() as u32,
                    blend_class: class,
                },
            ),
            blend_meshes: if class == 0 {
                p.blend_meshes
            } else {
                p.blend_meshes.push(
                    BlendMesh {
                        mesh: id,
                        center: V3 { x: s.x, y: s.y, z: s.z },
                        passes: mesh_passes(recs, m.submeshes@) as u32,
                    },
                )
            },
            vertices: p.vertices + m.vtx_count,
        }
    }
}

/// The buffers with the first `k` meshes in them.
pub open spec fn packed_meshes(
    bin: Seq<u8>,
    layout: VertexLayout,
    meshes: Seq<MeshIn>,
    recs: Seq<GpuMaterial>,
    unorm: Seq<F32>,
    k: nat,
) -> PackedModel
    decreases k,
{
    if k == 0 {
        empty_pack()
    } else {
        with_mesh(
            packed_meshes(bin, layout, meshes, recs, unorm, (k - 1) as nat),
            bin,
            layout,
            meshes[k - 1],
            recs,
            unorm,
        )
    }
}

/// The number of vertices of the first `k` meshes.
pub open spec fn total_vertices(meshes: Seq<MeshIn>, k: nat) -> int
    decreases k,
{
    if k == 0 {
        0
    } else {
        total_vertices(meshes, (k - 1) as nat) + meshes[k - 1].vtx_count
    }
}

/// The number of indices of the first `k` meshes.
pub open spec fn total_indices(meshes: Seq<MeshIn>, k: nat) -> int
    decreases k,
{
    if k == 0 {
        0
    } else {
        total_indices(meshes, (k - 1) as nat) + meshes[k - 1].idx_count
    }
}

/// The number of instances of the first `k` meshes.
pub open spec fn total_instances(meshes: Seq<MeshIn>, k: nat) -> int
    decreases k,
{
    if k == 0 {
        0
    } else {
        total_instances(meshes, (k - 1) as nat) + meshes[k - 1].instances@.len()
    }
}

/// Vertex `v` of a packed mesh lies inside the mesh file.
proof fn vertex_in_file(off: int, n: int, stride: int, v: int, len: int)
    requires
        0 <= v < n,
        0 <= stride,
        0 <= off,
        off + n * stride <= len,
    ensures
        0 <= v * stride,
        off + v * stride + stride <= len,
{
    assert(v * stride + stride <= n * stride) by (nonlinear_arith)
        requires
            0 <= v < n,
            0 <= stride,
    ;
    assert(0 <= v * stride) by (nonlinear_arith)
        requires
            0 <= v,
            0 <= stride,
    ;
}

fn read_float(bin: &Vec<u8>, k: usize) -> (r: F32)
    requires
        k + 4 <= bin@.len(),
    ensures
        r == float_at(bin@, k as int),
{
    F32 { bits: read_le32(bin, k) }
}

/// Whether the mesh is packed.
fn keeps_mesh(bin: &Vec<u8>, layout: &VertexLayout, m: &MeshIn) -> (r: bool)
    ensures
        r == is_packed(bin@, *layout, *m),
{
    let len: u128 = bin.len() as u128;
    proof {
        assert(0 <= m.vtx_count * layout.stride <= 0xffff_ffff * 0xffff_ffff) by (nonlinear_arith)
            requires
                0 <= m.vtx_count <= 0xffff_ffff,
                0 <= layout.stride <= 0xffff_ffff,
        ;
    }
    m.instances.len() > 0 && m.vtx_count > 0 && m.idx_count > 0 && m.vtx_offset as u128
        + m.vtx_count as u128 * layout.stride as u128 <= len && m.idx_offset as u128
        + m.idx_count as u128 * 4 <= len
}

fn read_indices(bin: &Vec<u8>, m: &MeshIn) -> (r: Vec<u32>)
    requires
        m.idx_offset + m.idx_count * 4 <= bin@.len(),
    ensures
        r@ == mesh_indices(bin@, *m),
{
    let mut r: Vec<u32> = Vec::new();
    let len: usize = bin.len();
    let off: usize = m.idx_offset as usize;
    let mut i: u32 = 0;
    while i < m.idx_count
        invariant
            i <= m.idx_count,
            off == m.idx_offset,
            m.idx_offset + m.idx_count * 4 <= bin@.len() == len,
            r@ == mesh_indices(bin@, *m).take(i as int),
        decreases m.idx_count - i,
    {
        let w: u32 = read_le32(bin, off + i as usize * 4);
        r.push(w);
        i = i + 1;
        proof {
            assert(r@ =~= mesh_indices(bin@, *m).take(i as int));
        }
    }
    proof {
        assert(mesh_indices(bin@, *m).take(m.idx_count as int) =~= mesh_indices(bin@, *m));
    }
    r
}

/// The end of a part's run of indices inside an index list.
fn run_bounds(s: &SubMeshIn, len: usize) -> (r: (usize, usize))
    ensures
        r.0 <= r.1 <= len,
        r.1 == (if s.idx_start + s.idx_count < len {
            s.idx_start + s.idx_count
        } else {
            len as int
        }),
        r.0 == (if s.idx_start < r.1 {
            s.idx_start as int
        } else {
            r.1 as int
        }),
{
    let end: u64 = s.idx_start as u64 + s.idx_count as u64;
    let b: usize = if end < len as u64 {
        end as usize
    } else {
        len
    };
    let a: usize = if (s.idx_start as u64) < b as u64 {
        s.idx_start as usize
    } else {
        b
    };
    (a, b)
}

/// The material of each of the `n` vertices of a mesh.
fn vertex_materials(idx: &Vec<u32>, subs: &Vec<SubMeshIn>, n: usize) -> (r: Vec<u32>)
    ensures
        r@.len() == n,
        forall|v: int|
            0 <= v < n ==> #[trigger] r@[v] == vertex_material(idx@, subs@, v, subs@.len()),
{
    let default: u32 = if subs.len() > 0 {
        subs[0].material_id
    } else {
        0
    };
    let mut r: Vec<u32> = vec![default;n];
    let mut k: usize = 0;
    while k < subs.len()
        invariant
            k <= subs@.len(),
            r@.len() == n,
            forall|v: int|
                0 <= v < n ==> #[trigger] r@[v] == vertex_material(idx@, subs@, v, k as nat),
        decreases subs@.len() - k,
    {
        let s = &subs[k];
        let (a, b) = run_bounds(s, idx.len());
        let ghost before = r@;
        let mut j: usize = a;
        while j < b
            invariant
                a <= j <= b <= idx@.len(),
                r@.len() == n,
                before.len() == n,
                forall|v: int|
                    0 <= v < n ==> #[trigger] r@[v] == (if run_holds(
                        idx@,
                        a as int,
                        j as int,
                        v,
                    ) {
                        s.material_id
                    } else {
                        before[v]
                    }),
            decreases b - j,
        {
            let vi: usize = idx[j] as usize;
            let ghost prev = r@;
            if vi < n {
                r.set(vi, s.material_id);
            }
            proof {
                assert forall|v: int| 0 <= v < n implies #[trigger] r@[v] == (if run_holds(
                    idx@,
                    a as int,
                    j + 1,
                    v,
                ) {
                    s.material_id
                } else {
                    before[v]
                }) by {
                    if v == vi {
                        assert(idx@[j as int] == v);
                    } else if run_holds(idx@, a as int, j + 1, v) {
                        let i = choose|i: int|
                            a <= i < j + 1 && i < idx@.len() && #[trigger] idx@[i] == v;
                        assert(i < j);
                        assert(run_holds(idx@, a as int, j as int, v));
                    } else {
                        assert(!run_holds(idx@, a as int, j as int, v));
                    }
                    assert(v != vi ==> r@[v] == prev[v]);
                }
            }
            j = j + 1;
        }
        proof {
            assert forall|v: int| 0 <= v < n implies #[trigger] r@[v] == vertex_material(
                idx@,
                subs@,
                v,
                (k + 1) as nat,
            ) by {
                assert(run_holds(idx@, a as int, b as int, v) == part_uses(idx@, subs@[k as int], v))
                    by {
                    if run_holds(idx@, a as int, b as int, v) {
                        let i = choose|i: int|
                            a <= i < b && i < idx@.len() && #[trigger] idx@[i] == v;
                        assert(s.idx_start <= i < s.idx_start + s.idx_count);
                    }
                    if part_uses(idx@, subs@[k as int], v) {
                        let i = choose|i: int|
                            s.idx_start <= i < s.idx_start + s.idx_count && i < idx@.len()
                                && #[trigger] idx@[i] == v;
                        assert(a <= i < b);
                    }
                }
                assert(before[v] == vertex_material(idx@, subs@, v, k as nat));
            }
        }
        k = k + 1;
    }
    r
}

/// The texture coordinate of each vertex of a mesh.
fn vertex_uvs(
    bin: &Vec<u8>,
    layout: &VertexLayout,
    m: &MeshIn,
    recs: &Vec<GpuMaterial>,
    idx: &Vec<u32>,
    mats: &Vec<u32>,
) -> (r: Vec<Uv>)
    requires
        layout.wf(),
        is_packed(bin@, *layout, *m),
        idx@ == mesh_indices(bin@, *m),
        mats@.len() == m.vtx_count,
        forall|v: int|
            0 <= v < m.vtx_count ==> #[trigger] mats@[v] == vertex_material(
                idx@,
                m.submeshes@,
                v,
                m.submeshes@.len(),
            ),
    ensures
        r@.len() == m.vtx_count,
        forall|v: int|
            0 <= v < m.vtx_count ==> #[trigger] r@[v] == vertex_uv(
                bin@,
                *layout,
                *m,
                recs@,
                v,
                m.submeshes@.len(),
            ),
{
    let n: usize = m.vtx_count as usize;
    let len: usize = bin.len();
    let mut r: Vec<Uv> = Vec::new();
    let mut v: usize = 0;
    while v < n
        invariant
            v <= n,
            n == m.vtx_count,
            len == bin@.len(),
            layout.wf(),
            is_packed(bin@, *layout, *m),
            r@.len() == v,
            forall|k: int|
                0 <= k < v ==> #[trigger] r@[k] == vertex_uv(bin@, *layout, *m, recs@, k, 0),
        decreases n - v,
    {
        proof {
            vertex_in_file(
                m.vtx_offset as int,
                m.vtx_count as int,
                layout.stride as int,
                v as int,
                bin@.len() as int,
            );
        }
        match layout.uv {
            Some(o) => {
                let b: usize = m.vtx_offset as usize + v * layout.stride as usize + o as usize;
                r.push(Uv { u: read_float(bin, b), v: read_float(bin, b + 4) });
            },
            None => {
                r.push(Uv { u: F32 { bits: 0 }, v: F32 { bits: 0 } });
            },
        }
        v = v + 1;
    }
    let mut k: usize = 0;
    while k < m.submeshes.len()
        invariant
            k <= m.submeshes@.len(),
            n == m.vtx_count,
            r@.len() == n,
            idx@ == mesh_indices(bin@, *m),
            mats@.len() == n,
            forall|v: int|
                0 <= v < n ==> #[trigger] mats@[v] == vertex_material(
                    idx@,
                    m.submeshes@,
                    v,
                    m.submeshes@.len(),
                ),
            forall|v: int|
                0 <= v < n ==> #[trigger] r@[v] == vertex_uv(
                    bin@,
                    *layout,
                    *m,
                    recs@,
                    v,
                    k as nat,
                ),
        decreases m.submeshes@.len() - k,
    {
        let s = &m.submeshes[k];
        let id: usize = s.material_id as usize;
        let wet = id < recs.len() && recs[id].flags.water && recs[id].albedo_index != NO_ALBEDO;
        let ghost before = r@;
        match &s.projected {
            Some(plan) if wet && plan.is_wanted() => {
                let p = &plan.uvs;
                let (a, b) = run_bounds(s, idx.len());
                let mut j: usize = a;
                while j < b
                    invariant
                        a <= j <= b <= idx@.len(),
                        n == m.vtx_count,
                        r@.len() == n,
                        before.len() == n,
                        mats@.len() == n,
                        forall|v: int|
                            0 <= v < n ==> #[trigger] r@[v] == (if run_holds(
                                idx@,
                                a as int,
                                j as int,
                                v,
                            ) && v < p@.len() && mats@[v] == s.material_id {
                                p@[v]
                            } else {
                                before[v]
                            }),
                    decreases b - j,
                {
                    let vi: usize = idx[j] as usize;
                    let ghost prev = r@;
                    if vi < n && vi < p.len() && mats[vi] == s.material_id {
                        r.set(vi, p[vi]);
                    }
                    proof {
                        assert forall|v: int| 0 <= v < n implies #[trigger] r@[v] == (if run_holds(
                            idx@,
                            a as int,
                            j + 1,
                            v,
                        ) && v < p@.len() && mats@[v] == s.material_id {
                            p@[v]
                        } else {
                            before[v]
                        }) by {
                            if v == vi {
                                assert(idx@[j as int] == v);
                                assert(run_holds(idx@, a as int, j + 1, v));
                                assert(r@[v] == p@[v] || r@[v] == prev[v]);
                            } else {
                                assert(r@[v] == prev[v]);
                                if run_holds(idx@, a as int, j + 1, v) {
                                    let i = choose|i: int|
                                        a <= i < j + 1 && i < idx@.len() && #[trigger] idx@[i] == v;
                                    assert(i < j);
                                    assert(run_holds(idx@, a as int, j as int, v));
                                } else {
                                    assert(!run_holds(idx@, a as int, j as int, v));
                                }
                            }
                        }
                    }
                    j = j + 1;
                }
                proof {
                    assert forall|v: int| 0 <= v < n implies run_holds(
                        idx@,
                        a as int,
                        b as int,
                        v,
                    ) == #[trigger] part_uses(idx@, *s, v) by {
                        if run_holds(idx@, a as int, b as int, v) {
                            let i = choose|i: int|
                                a <= i < b && i < idx@.len() && #[trigger] idx@[i] == v;
                            assert(s.idx_start <= i < s.idx_start + s.idx_count);
                        }
                        if part_uses(idx@, *s, v) {
                            let i = choose|i: int|
                                s.idx_start <= i < s.idx_start + s.idx_count && i < idx@.len()
                                    && #[trigger] idx@[i] == v;
                            assert(a <= i < b);
                        }
                    }
                }
            },
            _ => {},
        }
        proof {
            assert forall|v: int| 0 <= v < n implies #[trigger] r@[v] == vertex_uv(
                bin@,
                *layout,
                *m,
                recs@,
                v,
                (k + 1) as nat,
            ) by {
                assert(mats@[v] == vertex_material(
                    idx@,
                    m.submeshes@,
                    v,
                    m.submeshes@.len(),
                ));
                assert(before[v] == vertex_uv(bin@, *layout, *m, recs@, v, k as nat));
            }
        }
        k = k + 1;
    }
    r
}

fn read_normal(bin: &Vec<u8>, layout: &VertexLayout, base: usize) -> (r: V3)
    requires
        layout.wf(),
        base + layout.stride <= bin@.len(),
    ensures
        r == vertex_normal(bin@, *layout, base as int),
{
    assert(bin@.len() == bin.len());
    match layout.normal {
        Some(o) => {
            let b: usize = base + o as usize;
            V3 { x: read_float(bin, b), y: read_float(bin, b + 4), z: read_float(bin, b + 8) }
        },
        None => V3 { x: F32 { bits: 0 }, y: F32 { bits: ONE }, z: F32 { bits: 0 } },
    }
}

fn read_color(bin: &Vec<u8>, layout: &VertexLayout, unorm: &Vec<F32>, base: usize) -> (r: V4)
    requires
        layout.wf(),
        unorm@.len() == 256,
        base + layout.stride <= bin@.len(),
    ensures
        r == vertex_color(bin@, *layout, unorm@, base as int),
{
    assert(bin@.len() == bin.len());
    let one = F32 { bits: ONE };
    match layout.color {
        Some(o) => {
            let b: usize = base + o as usize;
            V4 {
                x: unorm[bin[b] as usize],
                y: unorm[bin[b + 1] as usize],
                z: unorm[bin[b + 2] as usize],
                w: unorm[bin[b + 3] as usize],
            }
        },
        None => V4 { x: one, y: one, z: one, w: one },
    }
}

/// Append the words of one vertex.
pub fn push_words(out: &mut Vec<F32>, p: V3, n: V3, uv: Uv, material: u32, c: V4)
    ensures
        final(out)@ == old(out)@ + seq![
            p.x,
            p.y,
            p.z,
            n.x,
            n.y,
            n.z,
            uv.u,
            uv.v,
            float(material),
            c.x,
            c.y,
            c.z,
            c.w,
        ],
{
    out.push(p.x);
    out.push(p.y);
    out.push(p.z);
    out.push(n.x);
    out.push(n.y);
    out.push(n.z);
    out.push(uv.u);
    out.push(uv.v);
    out.push(F32 { bits: material });
    out.push(c.x);
    out.push(c.y);
    out.push(c.z);
    out.push(c.w);
    proof {
        assert(out@ =~= old(out)@ + seq![
            p.x,
            p.y,
            p.z,
            n.x,
            n.y,
            n.z,
            uv.u,
            uv.v,
            float(material),
            c.x,
            c.y,
            c.z,
            c.w,
        ]);
    }
}

/// Append the words of the vertices of a mesh.
fn push_vertices(
    out: &mut Vec<F32>,
    bin: &Vec<u8>,
    layout: &VertexLayout,
    m: &MeshIn,
    recs: &Vec<GpuMaterial>,
    unorm: &Vec<F32>,
    idx: &Vec<u32>,
)
    requires
        layout.wf(),
        is_packed(bin@, *layout, *m),
        idx@ == mesh_indices(bin@, *m),
        unorm@.len() == 256,
    ensures
        final(out)@ == old(out)@ + vertices_words(
            bin@,
            *layout,
            *m,
            recs@,
            unorm@,
            m.vtx_count as nat,
        ),
{
    let n: usize = m.vtx_count as usize;
    let len: usize = bin.len();
    let mats = vertex_materials(idx, &m.submeshes, n);
    let uvs = vertex_uvs(bin, layout, m, recs, idx, &mats);
    let mut v: usize = 0;
    proof {
        assert(out@ =~= old(out)@ + vertices_words(bin@, *layout, *m, recs@, unorm@, 0));
    }
    while v < n
        invariant
            v <= n,
            n == m.vtx_count,
            len == bin@.len(),
            layout.wf(),
            is_packed(bin@, *layout, *m),
            idx@ == mesh_indices(bin@, *m),
            unorm@.len() == 256,
            mats@.len() == n,
            uvs@.len() == n,
            forall|k: int|
                0 <= k < n ==> #[trigger] mats@[k] == vertex_material(
                    idx@,
                    m.submeshes@,
                    k,
                    m.submeshes@.len(),
                ),
            forall|k: int|
                0 <= k < n ==> #[trigger] uvs@[k] == vertex_uv(
                    bin@,
                    *layout,
                    *m,
                    recs@,
                    k,
                    m.submeshes@.len(),
                ),
            out@ == old(out)@ + vertices_words(bin@, *layout, *m, recs@, unorm@, v as nat),
        decreases n - v,
    {
        proof {
            vertex_in_file(
                m.vtx_offset as int,
                m.vtx_count as int,
                layout.stride as int,
                v as int,
                bin@.len() as int,
            );
        }
        let base: usize = m.vtx_offset as usize + v * layout.stride as usize;
        let p: usize = base + layout.position as usize;
        let pos = V3 {
            x: read_float(bin, p),
            y: read_float(bin, p + 4),
            z: read_float(bin, p + 8),
        };
        let nrm = read_normal(bin, layout, base);
        let col = read_color(bin, layout, unorm, base);
        push_words(out, pos, nrm, uvs[v], mats[v], col);
        proof {
            let w = vertex_words(bin@, *layout, *m, recs@, unorm@, v as int);
            let k0 = vertices_words(bin@, *layout, *m, recs@, unorm@, v as nat);
            assert((old(out)@ + k0) + w =~= old(out)@ + (k0 + w));
        }
        v = v + 1;
    }
}

/// The class of a mesh and the passes that it has parts in.
fn classify(recs: &Vec<GpuMaterial>, subs: &Vec<SubMeshIn>) -> (r: (u32, u32))
    ensures
        r.0 == mesh_class(recs@, subs@),
        r.1 == mesh_passes(recs@, subs@),
{
    let mut blend = false;
    let mut opaque = false;
    let mut soft = false;
    let mut overlay = false;
    let mut transparent = false;
    let mut k: usize = 0;
    while k < subs.len()
        invariant
            k <= subs@.len(),
            blend == some_blend(recs@, subs@.take(k as int)),
            opaque == some_opaque(recs@, subs@.take(k as int)),
            soft == in_pass(recs@, subs@.take(k as int), BLEND_MESH_SOFTCUTOUT),
            overlay == in_pass(recs@, subs@.take(k as int), BLEND_MESH_OVERLAY),
            transparent == in_pass(recs@, subs@.take(k as int), BLEND_MESH_TRANSPARENT),
        decreases subs@.len() - k,
    {
        let id: usize = subs[k].material_id as usize;
        let ghost a = subs@.take(k as int);
        let ghost b = subs@.take(k + 1);
        proof {
            assert(b =~= a.push(subs@[k as int]));
            assert(b[k as int] == subs@[k as int]);
            assert forall|i: int| 0 <= i < k implies a[i] == b[i] by {}
        }
        if id < recs.len() && recs[id].flags.blend {
            blend = true;
            if recs[id].flags.softcutout {
                soft = true;
            } else if recs[id].flags.decal || recs[id].flags.water {
                overlay = true;
            } else {
                transparent = true;
            }
        } else {
            opaque = true;
        }
        k = k + 1;
        proof {
            take_step(recs@, subs@, (k - 1) as int);
        }
    }
    proof {
        assert(subs@.take(subs@.len() as int) =~= subs@);
    }
    let class: u32 = if !blend {
        0
    } else if !opaque {
        1
    } else {
        2
    };
    let passes: u32 = (if soft {
        1u32
    } else {
        0u32
    }) + (if overlay {
        2u32
    } else {
        0u32
    }) + (if transparent {
        4u32
    } else {
        0u32
    });
    (class, passes)
}

/// What one more part adds.
proof fn take_step(recs: Seq<GpuMaterial>, subs: Seq<SubMeshIn>, k: int)
    requires
        0 <= k < subs.len(),
    ensures
        some_blend(recs, subs.take(k + 1)) == (some_blend(recs, subs.take(k)) || part_blends(
            recs,
            subs[k],
        )),
        some_opaque(recs, subs.take(k + 1)) == (some_opaque(recs, subs.take(k)) || !part_blends(
            recs,
            subs[k],
        )),
        forall|p: u32|
            #[trigger] in_pass(recs, subs.take(k + 1), p) == (in_pass(recs, subs.take(k), p) || (
            part_blends(recs, subs[k]) && part_pass(recs, subs[k]) == p)),
{
    let a = subs.take(k);
    let b = subs.take(k + 1);
    assert(b[k] == subs[k]);
    assert forall|i: int| 0 <= i < k implies #[trigger] a[i] == b[i] by {}
    assert forall|i: int| 0 <= i < k implies #[trigger] b[i] == a[i] by {}
}

/// Append one mesh to the buffers, if it is packed at all.
fn pack_mesh(
    p: &mut Packed,
    bin: &Vec<u8>,
    layout: &VertexLayout,
    m: &MeshIn,
    recs: &Vec<GpuMaterial>,
    unorm: &Vec<F32>,
)
    requires
        layout.wf(),
        unorm@.len() == 256,
        old(p)@.index_data.len() + m.idx_count <= u32::MAX,
        old(p)@.vertices + m.vtx_count <= u32::MAX,
        old(p)@.instances.len() + m.instances@.len() <= u32::MAX,
        old(p)@.mesh_meta.len() < u32::MAX,
    ensures
        final(p)@ == with_mesh(old(p)@, bin@, *layout, *m, recs@, unorm@),
{
    if !keeps_mesh(bin, layout, m) {
        return;
    }
    let id: u32 = p.mesh_meta.len() as u32;
    let first_index: u32 = p.index_data.len() as u32;
    let instance_base: u32 = p.instances.len() as u32;
    let base_vertex: i32 = p.vertices as i32;
    let ghost start = p@;
    let mut idx = read_indices(bin, m);
    push_vertices(&mut p.vertex_data, bin, layout, m, recs, unorm, &idx);
    p.index_data.append(&mut idx);
    let mut i: usize = 0;
    proof {
        assert(p.instances@ =~= start.instances + instance_records(m.instances@, id).take(0));
    }
    while i < m.instances.len()
        invariant
            i <= m.instances@.len(),
            p.instances@ == start.instances + instance_records(m.instances@, id).take(i as int),
            p.vertex_data@ == start.vertex_data + vertices_words(
                bin@,
                *layout,
                *m,
                recs@,
                unorm@,
                m.vtx_count as nat,
            ),
            p.index_data@ == start.index_data + mesh_indices(bin@, *m),
            p.mesh_meta@ == start.mesh_meta,
            p.blend_meshes@ == start.blend_meshes,
            p.vertices == start.vertices,
        decreases m.instances@.len() - i,
    {
        let s = &m.instances[i];
        p.instances.push(
            InstanceGpuRecord {
                m0: s.m0,
                m1: s.m1,
                m2: s.m2,
                mesh: id,
                flags: s.flags,
                kind: 0,
                sphere: s.sphere,
            },
        );
        i = i + 1;
        proof {
            assert(p.instances@ =~= start.instances + instance_records(m.instances@, id).take(
                i as int,
            ));
        }
    }
    proof {
        assert(instance_records(m.instances@, id).take(m.instances@.len() as int)
            =~= instance_records(m.instances@, id));
    }
    let (class, passes) = classify(recs, &m.submeshes);
    if class != 0 {
        let s = m.instances[0].sphere;
        p.blend_meshes.push(
            BlendMesh { mesh: id, center: V3 { x: s.x, y: s.y, z: s.z }, passes },
        );
    }
    p.mesh_meta.push(
        MeshMeta {
            index_count: m.idx_count,
            first_index,
            base_vertex,
            instance_base,
            instance_count: m.instances.len() as u32,
            blend_class: class,
        },
    );
    p.vertices = p.vertices + m.vtx_count;
}

/// Pack all meshes.
pub fn pack_meshes(
    bin: &Vec<u8>,
    layout: &VertexLayout,
    meshes: &Vec<MeshIn>,
    recs: &Vec<GpuMaterial>,
    unorm: &Vec<F32>,
) -> (p: Packed)
    requires
        layout.wf(),
        unorm@.len() == 256,
        total_indices(meshes@, meshes@.len()) <= u32::MAX,
        total_vertices(meshes@, meshes@.len()) <= u32::MAX,
        total_instances(meshes@, meshes@.len()) <= u32::MAX,
        meshes@.len() < u32::MAX,
    ensures
        p@ == packed_meshes(bin@, *layout, meshes@, recs@, unorm@, meshes@.len()),
        p@.index_data.len() <= total_indices(meshes@, meshes@.len()),
        p@.vertices <= total_vertices(meshes@, meshes@.len()),
        p@.instances.len() <= total_instances(meshes@, meshes@.len()),
        p@.mesh_meta.len() <= meshes@.len(),
{
    let mut p = Packed {
        vertex_data: Vec::new(),
        index_data: Vec::new(),
        instances: Vec::new(),
        mesh_meta: Vec::new(),
        blend_meshes: Vec::new(),
        vertices: 0,
    };
    proof {
        assert(p@ =~= empty_pack());
    }
    let mut k: usize = 0;
    while k < meshes.len()
        invariant
            k <= meshes@.len(),
            layout.wf(),
            unorm@.len() == 256,
            total_indices(meshes@, meshes@.len()) <= u32::MAX,
            total_vertices(meshes@, meshes@.len()) <= u32::MAX,
            total_instances(meshes@, meshes@.len()) <= u32::MAX,
            meshes@.len() < u32::MAX,
            p@ == packed_meshes(bin@, *layout, meshes@, recs@, unorm@, k as nat),
            p@.index_data.len() <= total_indices(meshes@, k as nat),
            p@.vertices <= total_vertices(meshes@, k as nat),
            p@.instances.len() <= total_instances(meshes@, k as nat),
            p@.mesh_meta.len() <= k,
        decreases meshes@.len() - k,
    {
        proof {
            totals_grow(meshes@, (k + 1) as nat, meshes@.len());
        }
        pack_mesh(&mut p, bin, layout, &meshes[k], recs, unorm);
        k = k + 1;
    }
    p
}

/// A total over more meshes is no smaller.
proof fn totals_grow(meshes: Seq<MeshIn>, a: nat, b: nat)
    requires
        a <= b <= meshes.len(),
    ensures
        total_indices(meshes, a) <= total_indices(meshes, b),
        total_vertices(meshes, a) <= total_vertices(meshes, b),
        total_instances(meshes, a) <= total_instances(meshes, b),
    decreases b,
{
    if a < b {
        totals_grow(meshes, a, (b - 1) as nat);
    }
}

/// What packed buffers keep: the runs of the meshes follow each other without gap in the index buffer
/// and in the instance list, they fill both, and every instance names the mesh whose run it is in.
pub open spec fn runs_tile(p: PackedModel) -> bool {
    let n = p.mesh_meta.len();
    &&& p.vertex_data.len() == 13 * p.vertices
    &&& n == 0 ==> p.index_data.len() == 0 && p.instances.len() == 0
    &&& n > 0 ==> p.mesh_meta[0].first_index == 0 && p.mesh_meta[0].instance_base == 0
    &&& forall|i: int|
        0 <= i < n - 1 ==> (#[trigger] p.mesh_meta[i]).first_index + p.mesh_meta[i].index_count
            == p.mesh_meta[i + 1].first_index && p.mesh_meta[i].instance_base
            + p.mesh_meta[i].instance_count == p.mesh_meta[i + 1].instance_base
    &&& n > 0 ==> p.mesh_meta[n - 1].first_index + p.mesh_meta[n - 1].index_count
        == p.index_data.len() && p.mesh_meta[n - 1].instance_base + p.mesh_meta[n
        - 1].instance_count == p.instances.len()
    &&& forall|i: int, j: int|
        0 <= i < n && 0 <= j < p.instances.len() && (#[trigger] p.mesh_meta[i]).instance_base <= j
            < p.mesh_meta[i].instance_base + p.mesh_meta[i].instance_count ==> (
        #[trigger] p.instances[j]).mesh == i
}

proof fn vertices_len(
    bin: Seq<u8>,
    layout: VertexLayout,
    m: MeshIn,
    recs: Seq<GpuMaterial>,
    unorm: Seq<F32>,
    k: nat,
)
    ensures
        vertices_words(bin, layout, m, recs, unorm, k).len() == 13 * k,
    decreases k,
{
    if k > 0 {
        vertices_len(bin, layout, m, recs, unorm, (k - 1) as nat);
    }
}

/// The runs of the packed meshes tile the buffers.
pub proof fn packed_runs_tile(
    bin: Seq<u8>,
    layout: VertexLayout,
    meshes: Seq<MeshIn>,
    recs: Seq<GpuMaterial>,
    unorm: Seq<F32>,
    k: nat,
)
    requires
        k <= meshes.len(),
        total_indices(meshes, k) <= u32::MAX,
        total_instances(meshes, k) <= u32::MAX,
        meshes.len() < u32::MAX,
    ensures
        runs_tile(packed_meshes(bin, layout, meshes, recs, unorm, k)),
        packed_meshes(bin, layout, meshes, recs, unorm, k).index_data.len() <= total_indices(
            meshes,
            k,
        ),
        packed_meshes(bin, layout, meshes, recs, unorm, k).instances.len() <= total_instances(
            meshes,
            k,
        ),
        packed_meshes(bin, layout, meshes, recs, unorm, k).mesh_meta.len() <= k,
    decreases k,
{
    if k > 0 {
        packed_runs_tile(bin, layout, meshes, recs, unorm, (k - 1) as nat);
        let p = packed_meshes(bin, layout, meshes, recs, unorm, (k - 1) as nat);
        let m = meshes[k - 1];
        let q = with_mesh(p, bin, layout, m, recs, unorm);
        if is_packed(bin, layout, m) {
            vertices_len(bin, layout, m, recs, unorm, m.vtx_count as nat);
            let n = p.mesh_meta.len();
            let id = n as u32;
            assert(q.mesh_meta[n as int].first_index == p.index_data.len());
            assert forall|i: int| 0 <= i < n implies #[trigger] q.mesh_meta[i] == p.mesh_meta[i] by {
            }
            assert forall|i: int| 0 <= i < n implies (#[trigger] q.mesh_meta[i]).instance_base
                + q.mesh_meta[i].instance_count <= p.instances.len() by {
                run_ends_inside(p, i);
            }
            assert forall|i: int, j: int|
                0 <= i < n + 1 && 0 <= j < q.instances.len() && (
                #[trigger] q.mesh_meta[i]).instance_base <= j < q.mesh_meta[i].instance_base
                    + q.mesh_meta[i].instance_count implies (#[trigger] q.instances[j]).mesh
                == i by {
                if i < n {
                    assert(q.mesh_meta[i] == p.mesh_meta[i]);
                    assert(j < p.instances.len());
                    assert(q.instances[j] == p.instances[j]);
                } else {
                    assert(q.instances[j] == instance_records(m.instances@, id)[j
                        - p.instances.len()]);
                }
            }
        }
    }
}

/// The run of a mesh ends inside the instance list.
pub proof fn run_ends_inside(p: PackedModel, i: int)
    requires
        runs_tile(p),
        0 <= i < p.mesh_meta.len(),
    ensures
        p.mesh_meta[i].instance_base + p.mesh_meta[i].instance_count <= p.instances.len(),
    decreases p.mesh_meta.len() - i,
{
    if i < p.mesh_meta.len() - 1 {
        run_ends_inside(p, i + 1);
    }
}

} // verus!
