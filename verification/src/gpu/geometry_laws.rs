//! What the packed buffers hold, said of the bytes of the mesh file and of the instances themselves.
use crate::f32bits::{float, F32};
use crate::gpu::materials::{GpuMaterial, V3};
use crate::gpu::meshes::{
    is_packed, mesh_class, mesh_indices, mesh_passes, packed_meshes, part_uses, stored_uv,
    total_indices, total_instances, total_vertices, vertex_material, vertex_uv, vertex_words,
    vertices_words, BlendMesh, InstanceGpuRecord, MeshIn, PackedModel, SubMeshIn, Uv, VertexLayout,
};
use vstd::prelude::*;

verus! {

/// The four bytes from position `k` on as a number, the lowest first.
pub open spec fn four_bytes(bin: Seq<u8>, k: int) -> int {
    bin[k] + 256 * bin[k + 1] + 65536 * bin[k + 2] + 16777216 * bin[k + 3]
}

/// Whether a mesh is kept: something stands there, it has vertices and indices, and the file holds all
/// of their bytes.
pub open spec fn is_kept(bin: Seq<u8>, stride: int, m: MeshIn) -> bool {
    m.instances@.len() >= 1 && m.vtx_count >= 1 && m.idx_count >= 1 && m.vtx_offset + m.vtx_count * stride
        <= bin.len() && m.idx_offset + 4 * m.idx_count <= bin.len()
}

/// How many of the first `k` meshes are kept.
pub open spec fn kept_before(bin: Seq<u8>, stride: int, meshes: Seq<MeshIn>, k: nat) -> nat
    decreases k,
{
    if k == 0 {
        0
    } else {
        kept_before(bin, stride, meshes, (k - 1) as nat) + (if is_kept(bin, stride, meshes[k - 1]) {
            1nat
        } else {
            0nat
        })
    }
}

/// How many vertices the kept ones of the first `k` meshes have.
pub open spec fn vertices_before(bin: Seq<u8>, stride: int, meshes: Seq<MeshIn>, k: nat) -> nat
    decreases k,
{
    if k == 0 {
        0
    } else {
        vertices_before(bin, stride, meshes, (k - 1) as nat) + (if is_kept(bin, stride, meshes[k - 1]) {
            meshes[k - 1].vtx_count as nat
        } else {
            0nat
        })
    }
}

/// Whether the word of a vertex is the four bytes at `at` of the mesh file.
pub open spec fn word_is(word: F32, bin: Seq<u8>, at: int) -> bool {
    word.bits == four_bytes(bin, at)
}

proof fn words_of_vertex(
    bin: Seq<u8>,
    layout: VertexLayout,
    m: MeshIn,
    recs: Seq<GpuMaterial>,
    unorm: Seq<F32>,
    k: nat,
    v: int,
    j: int,
)
    requires
        0 <= v < k,
        0 <= j < 13,
    ensures
        vertices_words(bin, layout, m, recs, unorm, k).len() == 13 * k,
        vertices_words(bin, layout, m, recs, unorm, k)[13 * v + j] == vertex_words(
            bin,
            layout,
            m,
            recs,
            unorm,
            v,
        )[j],
    decreases k,
{
    lengths_of_vertices(bin, layout, m, recs, unorm, (k - 1) as nat);
    if v < k - 1 {
        words_of_vertex(bin, layout, m, recs, unorm, (k - 1) as nat, v, j);
    }
}

proof fn lengths_of_vertices(
    bin: Seq<u8>,
    layout: VertexLayout,
    m: MeshIn,
    recs: Seq<GpuMaterial>,
    unorm: Seq<F32>,
    k: nat,
)
    ensures
        vertices_words(bin, layout, m, recs, unorm, k).len() == 13 * k,
    decreases k,
{
    if k > 0 {
        lengths_of_vertices(bin, layout, m, recs, unorm, (k - 1) as nat);
    }
}

/// The thirteen words of a vertex, read from the file: place, normal and texture coordinate as the
/// floats that stand there, in their order; the material; and the colour, byte by byte. Without a
/// normal it points up, without a colour it is white.
pub proof fn vertices_are_read_from_the_file(
    bin: Seq<u8>,
    layout: VertexLayout,
    m: MeshIn,
    recs: Seq<GpuMaterial>,
    unorm: Seq<F32>,
    v: int,
    i: int,
)
    requires
        0 <= v < m.vtx_count,
        0 <= i < 3,
    ensures
        ({
            let words = vertices_words(bin, layout, m, recs, unorm, m.vtx_count as nat);
            let base = m.vtx_offset + v * layout.stride;
            &&& words.len() == 13 * m.vtx_count
            &&& word_is(words[13 * v + i], bin, base + layout.position + 4 * i)
            &&& layout.normal matches Some(o) ==> word_is(words[13 * v + 3 + i], bin, base + o + 4 * i)
            &&& layout.normal is None ==> words[13 * v + 3].bits == 0 && words[13 * v + 4].bits == 0x3f80_0000
                && words[13 * v + 5].bits == 0
            &&& words[13 * v + 8].bits == vertex_material(
                mesh_indices(bin, m),
                m.submeshes@,
                v,
                m.submeshes@.len(),
            )
            &&& layout.color matches Some(o) ==> words[13 * v + 9 + i] == unorm[bin[base + o + i] as int]
                && words[13 * v + 12] == unorm[bin[base + o + 3] as int]
            &&& layout.color is None ==> words[13 * v + 9 + i].bits == 0x3f80_0000 && words[13 * v + 12].bits
                == 0x3f80_0000
        }),
{
    let n = m.vtx_count as nat;
    words_of_vertex(bin, layout, m, recs, unorm, n, v, 0);
    words_of_vertex(bin, layout, m, recs, unorm, n, v, 1);
    words_of_vertex(bin, layout, m, recs, unorm, n, v, 2);
    words_of_vertex(bin, layout, m, recs, unorm, n, v, 3);
    words_of_vertex(bin, layout, m, recs, unorm, n, v, 4);
    words_of_vertex(bin, layout, m, recs, unorm, n, v, 5);
    words_of_vertex(bin, layout, m, recs, unorm, n, v, 8);
    words_of_vertex(bin, layout, m, recs, unorm, n, v, 9);
    words_of_vertex(bin, layout, m, recs, unorm, n, v, 10);
    words_of_vertex(bin, layout, m, recs, unorm, n, v, 11);
    words_of_vertex(bin, layout, m, recs, unorm, n, v, 12);
}

/// Whether a material is water that shows a texture.
pub open spec fn shows_water(recs: Seq<GpuMaterial>, id: int) -> bool {
    0 <= id < recs.len() && recs[id].flags.water && recs[id].albedo_index != 0xffff_ffff
}

/// Whether a part of a mesh may lay its texture onto the ground at vertex `v`: water with a texture,
/// stretched over at least fifteen metres and at least three metres wide, that has the vertex.
pub open spec fn lays_its_texture(recs: Seq<GpuMaterial>, idx: Seq<u32>, s: SubMeshIn, v: int) -> bool {
    &&& shows_water(recs, s.material_id as int)
    &&& s.projected matches Some(p) && v < p.uvs@.len() && !p.metres_per_tile.lt(float(0x4170_0000))
        && !p.width.lt(float(0x4040_0000))
    &&& exists|i: int|
        s.idx_start <= i < s.idx_start + s.idx_count && i < idx.len() && #[trigger] idx[i] == v
}

/// The texture coordinate of a vertex is the one in the file, or the one that a part with the vertex's
/// own material lays onto the ground there; where no part does so it is the one in the file.
pub proof fn texture_coordinates_are_read_or_laid(
    bin: Seq<u8>,
    layout: VertexLayout,
    m: MeshIn,
    recs: Seq<GpuMaterial>,
    v: int,
    k: nat,
)
    requires
        k <= m.submeshes@.len(),
    ensures
        ({
            let uv = vertex_uv(bin, layout, m, recs, v, k);
            let subs = m.submeshes@;
            let idx = mesh_indices(bin, m);
            let mat = vertex_material(idx, subs, v, subs.len());
            let base = m.vtx_offset + v * layout.stride;
            let stored = uv == stored_uv(bin, layout, m, v);
            &&& stored || exists|s: int|
                0 <= s < k && lays_its_texture(recs, idx, #[trigger] subs[s], v) && subs[s].material_id == mat
                    && uv == subs[s].projected->0.uvs@[v]
            &&& (forall|s: int|
                0 <= s < k ==> !(lays_its_texture(recs, idx, #[trigger] subs[s], v) && subs[s].material_id == mat))
                ==> stored
            &&& k > 0 && lays_its_texture(recs, idx, subs[k - 1], v) && subs[k - 1].material_id == mat ==> uv
                == subs[k - 1].projected->0.uvs@[v]
            &&& layout.uv matches Some(o) ==> stored_uv(bin, layout, m, v).u.bits == four_bytes(bin, base + o)
                && stored_uv(bin, layout, m, v).v.bits == four_bytes(bin, base + o + 4)
            &&& layout.uv is None ==> stored_uv(bin, layout, m, v).u.bits == 0 && stored_uv(
                bin,
                layout,
                m,
                v,
            ).v.bits == 0
        }),
    decreases k,
{
    let subs = m.submeshes@;
    let idx = mesh_indices(bin, m);
    if k > 0 {
        texture_coordinates_are_read_or_laid(bin, layout, m, recs, v, (k - 1) as nat);
        let mat = vertex_material(idx, subs, v, subs.len());
        assert(lays_its_texture(recs, idx, subs[k - 1], v) && subs[k - 1].material_id == mat
            <==> crate::gpu::meshes::part_projects(recs, idx, subs, v, subs[k - 1]));
        if exists|s: int|
            0 <= s < k - 1 && lays_its_texture(recs, idx, #[trigger] subs[s], v) && subs[s].material_id == mat
                && vertex_uv(bin, layout, m, recs, v, (k - 1) as nat) == subs[s].projected->0.uvs@[v] {
            let s = choose|s: int|
                0 <= s < k - 1 && lays_its_texture(recs, idx, #[trigger] subs[s], v) && subs[s].material_id
                    == mat && vertex_uv(bin, layout, m, recs, v, (k - 1) as nat)
                    == subs[s].projected->0.uvs@[v];
            assert(0 <= s < k);
        }
    }
}

/// Words six and seven of a vertex are its texture coordinate.
pub proof fn texture_coordinates_stand_in_the_vertex(
    bin: Seq<u8>,
    layout: VertexLayout,
    m: MeshIn,
    recs: Seq<GpuMaterial>,
    unorm: Seq<F32>,
    v: int,
)
    requires
        0 <= v < m.vtx_count,
    ensures
        ({
            let words = vertices_words(bin, layout, m, recs, unorm, m.vtx_count as nat);
            Uv { u: words[13 * v + 6], v: words[13 * v + 7] } == vertex_uv(
                bin,
                layout,
                m,
                recs,
                v,
                m.submeshes@.len(),
            )
        }),
{
    words_of_vertex(bin, layout, m, recs, unorm, m.vtx_count as nat, v, 6);
    words_of_vertex(bin, layout, m, recs, unorm, m.vtx_count as nat, v, 7);
}

/// A vertex has the material of the last part whose run of indices holds it; one that no part uses has
/// that of the first part, and without parts the first material.
pub proof fn vertices_have_the_material_of_their_part(idx: Seq<u32>, subs: Seq<SubMeshIn>, v: int, k: nat)
    requires
        k <= subs.len(),
    ensures
        ({
            let mat = vertex_material(idx, subs, v, k);
            ||| exists|s: int|
                0 <= s < k && (#[trigger] subs[s]).material_id == mat && holds_vertex(idx, subs[s], v) && forall|
                    t: int,
                |
                    s < t < k ==> !holds_vertex(idx, #[trigger] subs[t], v)
            ||| (forall|t: int| 0 <= t < k ==> !holds_vertex(idx, #[trigger] subs[t], v)) && mat == (if subs.len()
                > 0 {
                subs[0].material_id
            } else {
                0
            })
        }),
    decreases k,
{
    if k > 0 {
        vertices_have_the_material_of_their_part(idx, subs, v, (k - 1) as nat);
        assert(holds_vertex(idx, subs[k - 1], v) <==> part_uses(idx, subs[k - 1], v));
        if part_uses(idx, subs[k - 1], v) {
            assert(subs[k - 1].material_id == vertex_material(idx, subs, v, k));
        } else {
            let mat = vertex_material(idx, subs, v, (k - 1) as nat);
            if exists|s: int|
                0 <= s < k - 1 && (#[trigger] subs[s]).material_id == mat && holds_vertex(idx, subs[s], v)
                    && forall|t: int| s < t < k - 1 ==> !holds_vertex(idx, #[trigger] subs[t], v) {
                let s = choose|s: int|
                    0 <= s < k - 1 && (#[trigger] subs[s]).material_id == mat && holds_vertex(
                        idx,
                        subs[s],
                        v,
                    ) && forall|t: int| s < t < k - 1 ==> !holds_vertex(idx, #[trigger] subs[t], v);
                assert(0 <= s < k && subs[s].material_id == mat);
                assert forall|t: int| s < t < k implies !holds_vertex(idx, #[trigger] subs[t], v) by {}
            }
        }
    }
}

/// Whether the run of indices of a part holds vertex `v`.
pub open spec fn holds_vertex(idx: Seq<u32>, s: SubMeshIn, v: int) -> bool {
    exists|i: int| s.idx_start <= i < s.idx_start + s.idx_count && i < idx.len() && #[trigger] idx[i] == v
}

/// What a part of a mesh is drawn as: nothing but opaque, or in one of the three passes with blending.
pub open spec fn drawn_in(recs: Seq<GpuMaterial>, s: SubMeshIn, soft: bool, overlay: bool, clear: bool) -> bool {
    &&& s.material_id < recs.len()
    &&& recs[s.material_id as int].flags.blend
    &&& ({
        let f = recs[s.material_id as int].flags;
        ||| soft && f.softcutout
        ||| overlay && !f.softcutout && (f.decal || f.water)
        ||| clear && !f.softcutout && !f.decal && !f.water
    })
}

/// The first bit of a mesh's passes says that it has a feathering part, the second that it has another
/// decal or water, the third that it has any other blended part. Its class is 0 without blended parts,
/// 1 without any others, and 2 with both.
pub proof fn passes_say_what_is_blended(recs: Seq<GpuMaterial>, subs: Seq<SubMeshIn>)
    ensures
        0 <= mesh_passes(recs, subs) < 8,
        mesh_passes(recs, subs) % 2 == 1 <==> exists|i: int|
            0 <= i < subs.len() && drawn_in(recs, #[trigger] subs[i], true, false, false),
        (mesh_passes(recs, subs) / 2) % 2 == 1 <==> exists|i: int|
            0 <= i < subs.len() && drawn_in(recs, #[trigger] subs[i], false, true, false),
        mesh_passes(recs, subs) / 4 == 1 <==> exists|i: int|
            0 <= i < subs.len() && drawn_in(recs, #[trigger] subs[i], false, false, true),
        mesh_class(recs, subs) == 0 <==> forall|i: int|
            0 <= i < subs.len() ==> !drawn_in(recs, #[trigger] subs[i], true, true, true),
        mesh_class(recs, subs) == 1 <==> subs.len() > 0 && forall|i: int|
            0 <= i < subs.len() ==> drawn_in(recs, #[trigger] subs[i], true, true, true),
        mesh_class(recs, subs) <= 2,
{
    use_parts(recs, subs);
    if subs.len() > 0 {
        assert(drawn_in(recs, subs[0], true, true, true) <==> crate::gpu::meshes::part_blends(recs, subs[0]));
    }
}

proof fn use_parts(recs: Seq<GpuMaterial>, subs: Seq<SubMeshIn>)
    ensures
        forall|i: int|
            0 <= i < subs.len() ==> (crate::gpu::meshes::part_blends(recs, #[trigger] subs[i]) <==> drawn_in(
                recs,
                subs[i],
                true,
                true,
                true,
            )),
        crate::gpu::meshes::in_pass(recs, subs, 1) <==> exists|i: int|
            0 <= i < subs.len() && drawn_in(recs, #[trigger] subs[i], true, false, false),
        crate::gpu::meshes::in_pass(recs, subs, 2) <==> exists|i: int|
            0 <= i < subs.len() && drawn_in(recs, #[trigger] subs[i], false, true, false),
        crate::gpu::meshes::in_pass(recs, subs, 4) <==> exists|i: int|
            0 <= i < subs.len() && drawn_in(recs, #[trigger] subs[i], false, false, true),
{
    assert forall|i: int| 0 <= i < subs.len() implies (crate::gpu::meshes::part_blends(recs, #[trigger] subs[i])
        && crate::gpu::meshes::part_pass(recs, subs[i]) == 1 <==> drawn_in(recs, subs[i], true, false, false))
        && (crate::gpu::meshes::part_blends(recs, subs[i]) && crate::gpu::meshes::part_pass(recs, subs[i]) == 2
        <==> drawn_in(recs, subs[i], false, true, false)) && (crate::gpu::meshes::part_blends(recs, subs[i])
        && crate::gpu::meshes::part_pass(recs, subs[i]) == 4 <==> drawn_in(recs, subs[i], false, false, true)) by {}
}

/// What stands in the buffers for mesh `k`: its entry, the words of its vertices, its indices as the
/// file has them, and its instances, unmoved.
pub open spec fn mesh_stands_there(
    p: PackedModel,
    bin: Seq<u8>,
    layout: VertexLayout,
    meshes: Seq<MeshIn>,
    recs: Seq<GpuMaterial>,
    unorm: Seq<F32>,
    k: int,
) -> bool {
    let m = meshes[k];
    let stride = layout.stride as int;
    let id = kept_before(bin, stride, meshes, k as nat) as int;
    let first = vertices_before(bin, stride, meshes, k as nat) as int;
    let e = p.mesh_meta[id];
    &&& id < p.mesh_meta.len()
    &&& e.index_count == m.idx_count
    &&& e.instance_count == m.instances@.len()
    &&& e.base_vertex == first as u32 as i32
    &&& e.blend_class == mesh_class(recs, m.submeshes@)
    &&& first + m.vtx_count <= p.vertices
    &&& p.vertex_data.subrange(13 * first, 13 * (first + m.vtx_count)) == vertices_words(
        bin,
        layout,
        m,
        recs,
        unorm,
        m.vtx_count as nat,
    )
    &&& e.first_index + e.index_count <= p.index_data.len()
    &&& forall|i: int|
        e.first_index <= i < e.first_index + e.index_count ==> #[trigger] p.index_data[i] == four_bytes(
            bin,
            m.idx_offset + 4 * (i - e.first_index),
        )
    &&& e.instance_base + e.instance_count <= p.instances.len()
    &&& forall|j: int|
        e.instance_base <= j < e.instance_base + e.instance_count ==> (#[trigger] p.instances[j])
            == (InstanceGpuRecord {
            m0: m.instances@[j - e.instance_base].m0,
            m1: m.instances@[j - e.instance_base].m1,
            m2: m.instances@[j - e.instance_base].m2,
            mesh: id as u32,
            flags: m.instances@[j - e.instance_base].flags,
            kind: 0,
            sphere: m.instances@[j - e.instance_base].sphere,
        })
    &&& mesh_class(recs, m.submeshes@) != 0 ==> p.blend_meshes.contains(
        BlendMesh {
            mesh: id as u32,
            center: V3 {
                x: m.instances@[0].sphere.x,
                y: m.instances@[0].sphere.y,
                z: m.instances@[0].sphere.z,
            },
            passes: mesh_passes(recs, m.submeshes@) as u32,
        },
    )
}

/// Every mesh that is kept stands in the packed buffers in its order, with the bytes of the file and
/// its own instances; there is nothing else in them.
pub proof fn meshes_stand_in_their_order(
    bin: Seq<u8>,
    layout: VertexLayout,
    meshes: Seq<MeshIn>,
    recs: Seq<GpuMaterial>,
    unorm: Seq<F32>,
    n: nat,
    k: int,
)
    requires
        n <= meshes.len(),
        0 <= k < n,
        total_indices(meshes, n) <= u32::MAX,
        total_vertices(meshes, n) <= u32::MAX,
        total_instances(meshes, n) <= u32::MAX,
        meshes.len() < u32::MAX,
    ensures
        is_kept(bin, layout.stride as int, meshes[k]) ==> mesh_stands_there(
            packed_meshes(bin, layout, meshes, recs, unorm, n),
            bin,
            layout,
            meshes,
            recs,
            unorm,
            k,
        ),
        packed_meshes(bin, layout, meshes, recs, unorm, n).mesh_meta.len() == kept_before(
            bin,
            layout.stride as int,
            meshes,
            n,
        ),
        packed_meshes(bin, layout, meshes, recs, unorm, n).vertices == vertices_before(
            bin,
            layout.stride as int,
            meshes,
            n,
        ),
    decreases n,
{
    let stride = layout.stride as int;
    let b = (n - 1) as nat;
    let p = packed_meshes(bin, layout, meshes, recs, unorm, b);
    let q = packed_meshes(bin, layout, meshes, recs, unorm, n);
    let m = meshes[n - 1];
    sizes_of_buffers(bin, layout, meshes, recs, unorm, b);
    sizes_of_buffers(bin, layout, meshes, recs, unorm, n);
    lengths_of_vertices(bin, layout, m, recs, unorm, m.vtx_count as nat);
    assert(is_kept(bin, stride, m) <==> is_packed(bin, layout, m));
    if k < n - 1 {
        meshes_stand_in_their_order(bin, layout, meshes, recs, unorm, b, k);
        if is_kept(bin, stride, meshes[k]) && is_packed(bin, layout, m) {
            let id = kept_before(bin, stride, meshes, k as nat) as int;
            let first = vertices_before(bin, stride, meshes, k as nat) as int;
            let mk = meshes[k];
            let e = p.mesh_meta[id];
            assert(q.mesh_meta[id] == e);
            assert(q.vertex_data.subrange(13 * first, 13 * (first + mk.vtx_count)) =~= p.vertex_data.subrange(
                13 * first,
                13 * (first + mk.vtx_count),
            ));
            assert forall|i: int| e.first_index <= i < e.first_index + e.index_count implies #[trigger] q.index_data[i]
                == four_bytes(bin, mk.idx_offset + 4 * (i - e.first_index)) by {
                assert(q.index_data[i] == p.index_data[i]);
            }
            assert forall|j: int|
                e.instance_base <= j < e.instance_base + e.instance_count implies (#[trigger] q.instances[j])
                == p.instances[j] by {}
            if mesh_class(recs, mk.submeshes@) != 0 {
                let own = BlendMesh {
                    mesh: id as u32,
                    center: V3 {
                        x: mk.instances@[0].sphere.x,
                        y: mk.instances@[0].sphere.y,
                        z: mk.instances@[0].sphere.z,
                    },
                    passes: mesh_passes(recs, mk.submeshes@) as u32,
                };
                let i = choose|i: int| 0 <= i < p.blend_meshes.len() && p.blend_meshes[i] == own;
                assert(q.blend_meshes[i] == own);
            }
        }
    } else if is_packed(bin, layout, m) {
        let id = p.mesh_meta.len() as int;
        let first = p.vertices;
        let e = q.mesh_meta[id];
        assert(q.vertex_data.subrange(13 * first, 13 * (first + m.vtx_count)) =~= vertices_words(
            bin,
            layout,
            m,
            recs,
            unorm,
            m.vtx_count as nat,
        ));
        assert forall|i: int| e.first_index <= i < e.first_index + e.index_count implies #[trigger] q.index_data[i]
            == four_bytes(bin, m.idx_offset + 4 * (i - e.first_index)) by {
            assert(q.index_data[i] == mesh_indices(bin, m)[i - e.first_index]);
            assert((i - e.first_index) * 4 == 4 * (i - e.first_index));
        }
        if mesh_class(recs, m.submeshes@) != 0 {
            assert(q.blend_meshes.last() == q.blend_meshes[q.blend_meshes.len() - 1]);
        }
    }
}

proof fn sizes_of_buffers(
    bin: Seq<u8>,
    layout: VertexLayout,
    meshes: Seq<MeshIn>,
    recs: Seq<GpuMaterial>,
    unorm: Seq<F32>,
    n: nat,
)
    requires
        n <= meshes.len(),
    ensures
        ({
            let p = packed_meshes(bin, layout, meshes, recs, unorm, n);
            &&& p.vertex_data.len() == 13 * p.vertices
            &&& p.vertices == vertices_before(bin, layout.stride as int, meshes, n)
            &&& p.mesh_meta.len() == kept_before(bin, layout.stride as int, meshes, n)
            &&& p.mesh_meta.len() <= n
            &&& 0 <= p.vertices <= total_vertices(meshes, n)
            &&& p.index_data.len() <= total_indices(meshes, n)
            &&& p.instances.len() <= total_instances(meshes, n)
        }),
    decreases n,
{
    if n > 0 {
        sizes_of_buffers(bin, layout, meshes, recs, unorm, (n - 1) as nat);
        let m = meshes[n - 1];
        lengths_of_vertices(bin, layout, m, recs, unorm, m.vtx_count as nat);
        assert(is_kept(bin, layout.stride as int, m) <==> is_packed(bin, layout, m));
    }
}

} // verus!
