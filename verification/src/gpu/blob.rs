//! The whole staging data of a map: material table, terrain table, geometry and grass, built in the
//! order in which their textures are numbered.
use crate::bytes::read_le32;
use crate::f32bits::{float, F32, ONE};
use crate::gpu::materials::{
    empty_table, entered_all, material_table, record_at, zero4, GpuMaterial, MatClass, MaterialIn,
    PackRules, PartStretch, Table, TableModel, VpGpu, NO_EMISSIVE, NO_NORMAL, V3, V4,
};
use crate::gpu::meshes::{
    float_at, pack_meshes, packed_meshes, packed_runs_tile, push_words, run_ends_inside, runs_tile,
    total_indices, total_instances, total_vertices, InstanceGpuRecord, MeshIn, MeshMeta, Packed, PackedModel, Uv, VertexLayout,
};
use crate::gpu::paths::{interned, position, PathTable};
use crate::gpu::terrain::{
    build_splat, empty_splat, new_splat, slice_count, slice_order, splat_of, tag_terrain,
    tagged_all, texture_count, Splat, SplatModel, TerrainMesh, TerrainSplatGpu, TileIn,
};
use crate::text::texts;
use vstd::prelude::*;

verus! {

/// One grass clump as the grass file has it: place, turn and size.
#[derive(Clone, Copy, Debug, PartialEq, Eq, Structural)]
pub struct GrassSeed {
    pub x: F32,
    pub y: F32,
    pub z: F32,
    pub turn: F32,
    pub scale: F32,
}

/// The clump at record `i` of the grass file.
pub open spec fn seed_at(bin: Seq<u8>, i: int) -> GrassSeed {
    GrassSeed {
        x: float_at(bin, i * 20),
        y: float_at(bin, i * 20 + 4),
        z: float_at(bin, i * 20 + 8),
        turn: float_at(bin, i * 20 + 12),
        scale: float_at(bin, i * 20 + 16),
    }
}

/// The clumps of a grass file: one for each full twenty bytes.
pub fn parse_grass(bin: &Vec<u8>) -> (r: Vec<GrassSeed>)
    ensures
        r@.len() == bin@.len() / 20,
        forall|i: int| 0 <= i < r@.len() ==> #[trigger] r@[i] == seed_at(bin@, i),
{
    let len: usize = bin.len();
    let n: usize = len / 20;
    let mut r: Vec<GrassSeed> = Vec::new();
    let mut i: usize = 0;
    while i < n
        invariant
            i <= n,
            len == bin@.len(),
            n == len / 20,
            r@.len() == i,
            forall|k: int| 0 <= k < i ==> #[trigger] r@[k] == seed_at(bin@, k),
        decreases n - i,
    {
        let o: usize = i * 20;
        r.push(
            GrassSeed {
                x: F32 { bits: read_le32(bin, o) },
                y: F32 { bits: read_le32(bin, o + 4) },
                z: F32 { bits: read_le32(bin, o + 8) },
                turn: F32 { bits: read_le32(bin, o + 12) },
                scale: F32 { bits: read_le32(bin, o + 16) },
            },
        );
        i = i + 1;
    }
    r
}

/// A placed clump: the rows of its transform and its bounding sphere.
#[derive(Clone, Copy, Debug, PartialEq, Eq, Structural)]
pub struct GrassClump {
    pub m0: V4,
    pub m1: V4,
    pub m2: V4,
    pub sphere: V4,
}

/// The grass of a map: its texture, its tint, the four corners of each of the three crossed quads of
/// a clump, and the clumps.
pub struct GrassIn {
    pub albedo: String,
    pub tint: V4,
    pub corners: Vec<V3>,
    pub clumps: Vec<GrassClump>,
}

/// The material of grass: alpha-tested and matte.
pub open spec fn grass_record(albedo_index: u32, tint: V4) -> GpuMaterial {
    GpuMaterial {
        albedo_index,
        flags: MatClass {
            cutout: true,
            blend: false,
            softcutout: false,
            water: false,
            terrain: false,
            detail: false,
            rfa: false,
            vp: false,
            puddle_luma: false,
            water_matte: false,
            decal: false,
        },
        alpha_cutoff: float(0x3eb3_3333),
        roughness: float(0x3f66_6666),
        uv_xform: V4 { x: float(ONE), y: float(ONE), z: float(0), w: float(0) },
        tint,
        vp: zero4(),
        normal_index: NO_NORMAL,
        normal_flags: 0,
        normal_scale: float(ONE),
        slot: 0,
        detail_albedo_index: 0,
        detail_normal_index: 0,
        detail_flags: 0,
        detail_albedo_uv: zero4(),
        detail_normal_uv: zero4(),
        detail_params: zero4(),
        detail_mean_gain: zero4(),
        emissive_index: NO_EMISSIVE,
        emissive_rgb: V3 { x: float(0), y: float(0), z: float(0) },
    }
}

/// The texture coordinate of corner `k` of a quad: from lower left round to upper left.
pub open spec fn corner_uv(k: int) -> Uv {
    Uv {
        u: float(
            if k % 4 == 1 || k % 4 == 2 {
                ONE
            } else {
                0
            },
        ),
        v: float(
            if k % 4 < 2 {
                ONE
            } else {
                0
            },
        ),
    }
}

/// The words of corner `k` of the clump mesh.
pub open spec fn corner_words(corners: Seq<V3>, mat: u32, k: int) -> Seq<F32> {
    let p = corners[k];
    let uv = corner_uv(k);
    let o = float(ONE);
    let z = float(0);
    seq![p.x, p.y, p.z, z, o, z, uv.u, uv.v, float(mat), o, o, o, o]
}

/// The words of the first `k` corners.
pub open spec fn corners_words(corners: Seq<V3>, mat: u32, k: nat) -> Seq<F32>
    decreases k,
{
    if k == 0 {
        Seq::empty()
    } else {
        corners_words(corners, mat, (k - 1) as nat) + corner_words(corners, mat, k - 1)
    }
}

/// The indices of the first `q` quads: two triangles each.
pub open spec fn quad_indices(q: nat) -> Seq<u32>
    decreases q,
{
    if q == 0 {
        Seq::empty()
    } else {
        let b = (4 * (q - 1)) as u32;
        quad_indices((q - 1) as nat) + seq![
            b,
            (b + 1) as u32,
            (b + 2) as u32,
            b,
            (b + 2) as u32,
            (b + 3) as u32,
        ]
    }
}

/// The clumps as instances.
pub open spec fn clump_records(clumps: Seq<GrassClump>, mesh: u32) -> Seq<InstanceGpuRecord> {
    Seq::new(
        clumps.len(),
        |i: int|
            InstanceGpuRecord {
                m0: clumps[i].m0,
                m1: clumps[i].m1,
                m2: clumps[i].m2,
                mesh,
                flags: 0,
                kind: 1,
                sphere: clumps[i].sphere,
            },
    )
}

/// The buffers with the grass appended: one mesh of three crossed quads and an instance for each
/// clump.
pub open spec fn with_grass(p: PackedModel, mat: u32, g: GrassIn) -> PackedModel {
    PackedModel {
        vertex_data: p.vertex_data + corners_words(g.corners@, mat, 12),
        index_data: p.index_data + quad_indices(3),
        instances: p.instances + clump_records(g.clumps@, p.mesh_meta.len() as u32),
        mesh_meta: p.mesh_meta.push(
            MeshMeta {
                index_count: 18,
                first_index: p.index_data.len() as u32,
                base_vertex: p.vertices as u32 as i32,
                instance_base: p.instances.len() as u32,
                instance_count: g.clumps@.len() as u32,
                blend_class: 0,
            },
        ),
        blend_meshes: p.blend_meshes,
        vertices: p.vertices + 12,
    }
}

fn append_grass(p: &mut Packed, mat: u32, g: &GrassIn)
    requires
        g.corners@.len() == 12,
        old(p)@.index_data.len() + 18 <= u32::MAX,
        old(p)@.vertices + 12 <= u32::MAX,
        old(p)@.instances.len() + g.clumps@.len() <= u32::MAX,
        old(p)@.mesh_meta.len() < u32::MAX,
    ensures
        final(p)@ == with_grass(old(p)@, mat, *g),
{
    let ghost start = p@;
    let mesh: u32 = p.mesh_meta.len() as u32;
    let first_index: u32 = p.index_data.len() as u32;
    let instance_base: u32 = p.instances.len() as u32;
    let base_vertex: i32 = p.vertices as i32;
    let one = F32 { bits: ONE };
    let zero = F32 { bits: 0 };
    let mut k: usize = 0;
    proof {
        assert(p.vertex_data@ =~= start.vertex_data + corners_words(g.corners@, mat, 0));
    }
    while k < 12
        invariant
            k <= 12,
            g.corners@.len() == 12,
            one == float(ONE),
            zero == float(0),
            p.vertex_data@ == start.vertex_data + corners_words(g.corners@, mat, k as nat),
            p.index_data@ == start.index_data,
            p.instances@ == start.instances,
            p.mesh_meta@ == start.mesh_meta,
            p.blend_meshes@ == start.blend_meshes,
            p.vertices == start.vertices,
        decreases 12 - k,
    {
        let u = if k % 4 == 1 || k % 4 == 2 {
            one
        } else {
            zero
        };
        let v = if k % 4 < 2 {
            one
        } else {
            zero
        };
        let up = V3 { x: zero, y: one, z: zero };
        let white = V4 { x: one, y: one, z: one, w: one };
        push_words(&mut p.vertex_data, g.corners[k], up, Uv { u, v }, mat, white);
        k = k + 1;
        proof {
            let w = corner_words(g.corners@, mat, k - 1);
            let c = corners_words(g.corners@, mat, (k - 1) as nat);
            assert((start.vertex_data + c) + w =~= start.vertex_data + (c + w));
        }
    }
    let mut q: u32 = 0;
    proof {
        assert(p.index_data@ =~= start.index_data + quad_indices(0));
    }
    while q < 3
        invariant
            q <= 3,
            p.vertex_data@ == start.vertex_data + corners_words(g.corners@, mat, 12),
            p.index_data@ == start.index_data + quad_indices(q as nat),
            p.instances@ == start.instances,
            p.mesh_meta@ == start.mesh_meta,
            p.blend_meshes@ == start.blend_meshes,
            p.vertices == start.vertices,
        decreases 3 - q,
    {
        let b: u32 = 4 * q;
        p.index_data.push(b);
        p.index_data.push(b + 1);
        p.index_data.push(b + 2);
        p.index_data.push(b);
        p.index_data.push(b + 2);
        p.index_data.push(b + 3);
        q = q + 1;
        proof {
            assert(p.index_data@ =~= start.index_data + quad_indices(q as nat));
        }
    }
    let mut i: usize = 0;
    proof {
        assert(p.instances@ =~= start.instances + clump_records(g.clumps@, mesh).take(0));
    }
    while i < g.clumps.len()
        invariant
            i <= g.clumps@.len(),
            p.vertex_data@ == start.vertex_data + corners_words(g.corners@, mat, 12),
            p.index_data@ == start.index_data + quad_indices(3),
            p.instances@ == start.instances + clump_records(g.clumps@, mesh).take(i as int),
            p.mesh_meta@ == start.mesh_meta,
            p.blend_meshes@ == start.blend_meshes,
            p.vertices == start.vertices,
        decreases g.clumps@.len() - i,
    {
        let c = &g.clumps[i];
        p.instances.push(
            InstanceGpuRecord {
                m0: c.m0,
                m1: c.m1,
                m2: c.m2,
                mesh,
                flags: 0,
                kind: 1,
                sphere: c.sphere,
            },
        );
        i = i + 1;
        proof {
            assert(p.instances@ =~= start.instances + clump_records(g.clumps@, mesh).take(i as int));
        }
    }
    proof {
        assert(clump_records(g.clumps@, mesh).take(g.clumps@.len() as int) =~= clump_records(
            g.clumps@,
            mesh,
        ));
    }
    p.mesh_meta.push(
        MeshMeta {
            index_count: 18,
            first_index,
            base_vertex,
            instance_base,
            instance_count: g.clumps.len() as u32,
            blend_class: 0,
        },
    );
    p.vertices = p.vertices + 12;
}

/// What a map is built from.
pub struct PackIn {
    pub materials: Vec<MaterialIn>,
    pub parts: Vec<PartStretch>,
    pub rules: PackRules,
    /// The tiles of the terrain sidecar, where it could be read.
    pub tiles: Option<Vec<TileIn>>,
    /// The meshes of the terrain instances, in the order of the instances.
    pub terrain_meshes: Vec<TerrainMesh>,
    pub layout: VertexLayout,
    pub bin: Vec<u8>,
    pub meshes: Vec<MeshIn>,
    /// The float of each byte value of a vertex colour.
    pub unorm: Vec<F32>,
    pub grass: Option<GrassIn>,
}

impl PackIn {
    /// What machine limits ask of a map: everything can be numbered in 32 bits.
    pub open spec fn wf(&self) -> bool {
        &&& self.layout.wf()
        &&& self.unorm@.len() == 256
        &&& self.grass matches Some(g) ==> g.corners@.len() == 12
        &&& 7 * self.materials@.len() + 16 * self.tile_textures() + 1 < 0xffff_ffff
        &&& total_indices(self.meshes@, self.meshes@.len()) + 18 <= u32::MAX
        &&& total_vertices(self.meshes@, self.meshes@.len()) + 12 <= u32::MAX
        &&& total_instances(self.meshes@, self.meshes@.len()) + self.clump_count() <= u32::MAX
        &&& self.meshes@.len() + 1 < u32::MAX
    }

    /// How many textures the terrain names at most.
    pub open spec fn tile_textures(&self) -> int {
        match self.tiles {
            Some(t) => texture_count(t@, t@.len()) as int,
            None => 0,
        }
    }

    /// How many clumps of grass there are.
    pub open spec fn clump_count(&self) -> int {
        match self.grass {
            Some(g) => g.clumps@.len() as int,
            None => 0,
        }
    }

    /// The material table.
    pub open spec fn table(&self) -> TableModel {
        entered_all(empty_table(), self.materials@, self.materials@.len())
    }

    /// The splat table.
    pub open spec fn splat(&self) -> SplatModel {
        match self.tiles {
            Some(t) => splat_of(self.table().albedo, self.table().linear, t@),
            None => empty_splat(self.table().albedo, self.table().linear),
        }
    }

    /// The names of the terrain slices.
    pub open spec fn slice_names(&self) -> Seq<Seq<char>> {
        let t = self.tiles->0@;
        Seq::new(slice_count(t), |i: int| t[slice_order(t)[i]].name@)
    }

    /// The records of the materials, terrain tagged.
    pub open spec fn records(&self) -> Seq<GpuMaterial> {
        let recs = Seq::new(
            self.materials@.len(),
            |i: int| record_at(self.materials@, self.parts@, self.rules, i),
        );
        match self.tiles {
            Some(t) => tagged_all(
                recs,
                self.terrain_meshes@,
                self.slice_names(),
                self.terrain_meshes@.len(),
            ),
            None => recs,
        }
    }

    /// The packed meshes, without grass.
    pub open spec fn geometry(&self) -> PackedModel {
        packed_meshes(
            self.bin@,
            self.layout,
            self.meshes@,
            self.records(),
            self.unorm@,
            self.meshes@.len(),
        )
    }

    /// The staging data of the map.
    pub open spec fn blob(&self) -> BlobModel {
        let b = BlobModel {
            packed: self.geometry(),
            materials: self.records(),
            albedo: self.splat().albedo,
            normal: self.table().normal,
            linear: self.splat().linear,
            vp: self.table().vp,
            layer_albedo: self.splat().layer_albedo,
            layer_rep: self.splat().layer_rep,
            ctrl_idx: self.splat().ctrl_idx,
        };
        match self.grass {
            Some(g) => BlobModel {
                packed: with_grass(b.packed, b.materials.len() as u32, g),
                materials: b.materials.push(
                    grass_record(position(b.albedo, g.albedo@) as u32, g.tint),
                ),
                albedo: interned(b.albedo, g.albedo@),
                ..b
            },
            None => b,
        }
    }
}

/// The staging data of a map.
pub struct CpuData {
    pub packed: Packed,
    pub materials: Vec<GpuMaterial>,
    pub albedo: PathTable,
    pub normal: PathTable,
    pub linear: Vec<u32>,
    pub vp: Vec<VpGpu>,
    pub terrain: TerrainSplatGpu,
}

/// What the staging data hold.
#[verifier::ext_equal]
pub struct BlobModel {
    pub packed: PackedModel,
    pub materials: Seq<GpuMaterial>,
    pub albedo: Seq<Seq<char>>,
    pub normal: Seq<Seq<char>>,
    pub linear: Seq<u32>,
    pub vp: Seq<VpGpu>,
    pub layer_albedo: Seq<u32>,
    pub layer_rep: Seq<F32>,
    pub ctrl_idx: Seq<u32>,
}

impl View for CpuData {
    type V = BlobModel;

    open spec fn view(&self) -> BlobModel {
        BlobModel {
            packed: self.packed@,
            materials: self.materials@,
            albedo: self.albedo@,
            normal: self.normal@,
            linear: self.linear@,
            vp: self.vp@,
            layer_albedo: self.terrain.layer_albedo@,
            layer_rep: self.terrain.layer_rep@,
            ctrl_idx: self.terrain.ctrl_idx@,
        }
    }
}

/// Whether there is something to draw.
pub open spec fn drawable(b: BlobModel) -> bool {
    b.packed.mesh_meta.len() > 0 && b.packed.instances.len() > 0
}

fn slice_name_list(tiles: &Vec<TileIn>, slices: &Vec<usize>) -> (r: Vec<String>)
    requires
        forall|i: int| 0 <= i < slices@.len() ==> #[trigger] slices@[i] < tiles@.len(),
    ensures
        r@.len() == slices@.len(),
        forall|i: int| 0 <= i < r@.len() ==> #[trigger] r@[i]@ == tiles@[slices@[i] as int].name@,
{
    let mut r: Vec<String> = Vec::new();
    let mut i: usize = 0;
    while i < slices.len()
        invariant
            i <= slices@.len(),
            r@.len() == i,
            forall|k: int| 0 <= k < slices@.len() ==> #[trigger] slices@[k] < tiles@.len(),
            forall|k: int| 0 <= k < i ==> #[trigger] r@[k]@ == tiles@[slices@[k] as int].name@,
        decreases slices@.len() - i,
    {
        r.push(tiles[slices[i]].name.clone());
        i = i + 1;
    }
    r
}

proof fn corners_words_len(corners: Seq<V3>, mat: u32, k: nat)
    ensures
        corners_words(corners, mat, k).len() == 13 * k,
    decreases k,
{
    if k > 0 {
        corners_words_len(corners, mat, (k - 1) as nat);
    }
}

/// Appending the grass keeps the runs of the meshes tiling the buffers.
pub proof fn grass_keeps_runs_tiling(p: PackedModel, mat: u32, g: GrassIn)
    requires
        runs_tile(p),
        p.index_data.len() + 18 <= u32::MAX,
        p.instances.len() + g.clumps@.len() <= u32::MAX,
        p.mesh_meta.len() < u32::MAX,
    ensures
        runs_tile(with_grass(p, mat, g)),
{
    corners_words_len(g.corners@, mat, 12);
    assert(quad_indices(3).len() == 18) by {
        reveal_with_fuel(quad_indices, 4);
    }
    let n = p.mesh_meta.len();
    let q = with_grass(p, mat, g);
    assert forall|i: int| 0 <= i < n implies #[trigger] q.mesh_meta[i] == p.mesh_meta[i] by {
    }
    assert forall|i: int, j: int|
        0 <= i < n + 1 && 0 <= j < q.instances.len() && (#[trigger] q.mesh_meta[i]).instance_base <= j
            < q.mesh_meta[i].instance_base + q.mesh_meta[i].instance_count implies (
    #[trigger] q.instances[j]).mesh == i by {
        if i < n {
            run_ends_inside(p, i);
            assert(q.mesh_meta[i] == p.mesh_meta[i]);
            assert(q.instances[j] == p.instances[j]);
        } else {
            assert(q.instances[j] == clump_records(g.clumps@, n as u32)[j - p.instances.len()]);
        }
    }
}

/// In the staging data of a map, with grass or without, the runs of the meshes tile the buffers.
pub proof fn blob_runs_tile(pack: PackIn)
    requires
        pack.wf(),
    ensures
        runs_tile(pack.blob().packed),
{
    packed_runs_tile(
        pack.bin@,
        pack.layout,
        pack.meshes@,
        pack.records(),
        pack.unorm@,
        pack.meshes@.len(),
    );
    if let Some(g) = pack.grass {
        grass_keeps_runs_tiling(pack.geometry(), pack.records().len() as u32, g);
    }
}

/// The staging data of a map; `None` where there is nothing to draw.
pub fn compute_cpu_blob(pack: &PackIn) -> (r: Option<CpuData>)
    requires
        pack.wf(),
    ensures
        match r {
            Some(b) => b@ == pack.blob() && drawable(pack.blob()),
            None => !drawable(pack.blob()),
        },
{
    let (mut recs, t) = material_table(&pack.materials, &pack.parts, pack.rules);
    let Table { albedo, normal, linear, vp } = t;
    let mut splat = new_splat(albedo, linear);
    proof {
        assert(recs@ =~= Seq::new(
            pack.materials@.len(),
            |i: int| record_at(pack.materials@, pack.parts@, pack.rules, i),
        ));
    }
    match &pack.tiles {
        Some(tiles) => {
            let slices = build_splat(&mut splat, tiles);
            let names = slice_name_list(tiles, &slices);
            proof {
                assert(texts(names@) =~= pack.slice_names());
            }
            tag_terrain(&mut recs, &pack.terrain_meshes, &names);
        },
        None => {},
    }
    assert(recs@ == pack.records());
    assert(splat@ == pack.splat());
    let mut packed = pack_meshes(&pack.bin, &pack.layout, &pack.meshes, &recs, &pack.unorm);
    match &pack.grass {
        Some(g) => {
            let mat: u32 = recs.len() as u32;
            let idx: u32 = splat.albedo.intern(g.albedo.as_str());
            let zero = F32 { bits: 0 };
            let one = F32 { bits: ONE };
            let z4 = V4 { x: zero, y: zero, z: zero, w: zero };
            recs.push(
                GpuMaterial {
                    albedo_index: idx,
                    flags: MatClass {
                        cutout: true,
                        blend: false,
                        softcutout: false,
                        water: false,
                        terrain: false,
                        detail: false,
                        rfa: false,
                        vp: false,
                        puddle_luma: false,
                        water_matte: false,
                        decal: false,
                    },
                    alpha_cutoff: F32 { bits: 0x3eb3_3333 },
                    roughness: F32 { bits: 0x3f66_6666 },
                    uv_xform: V4 { x: one, y: one, z: zero, w: zero },
                    tint: g.tint,
                    vp: z4,
                    normal_index: NO_NORMAL,
                    normal_flags: 0,
                    normal_scale: one,
                    slot: 0,
                    detail_albedo_index: 0,
                    detail_normal_index: 0,
                    detail_flags: 0,
                    detail_albedo_uv: z4,
                    detail_normal_uv: z4,
                    detail_params: z4,
                    detail_mean_gain: z4,
                    emissive_index: NO_EMISSIVE,
                    emissive_rgb: V3 { x: zero, y: zero, z: zero },
                },
            );
            append_grass(&mut packed, mat, g);
        },
        None => {},
    }
    let Splat { albedo, linear, terrain } = splat;
    let blob = CpuData { packed, materials: recs, albedo, normal, linear, vp, terrain };
    proof {
        assert(blob@ =~= pack.blob());
    }
    if blob.packed.mesh_meta.len() == 0 || blob.packed.instances.len() == 0 {
        None
    } else {
        Some(blob)
    }
}

} // verus!
