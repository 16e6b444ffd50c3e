//! What the staging data of a map hold of its grass, its materials and its terrain.
use crate::gpu::blob::{
    corner_words, corners_words, drawable, grass_record, quad_indices, seed_at, with_grass,
    BlobModel, GrassIn, PackIn,
};
use crate::gpu::geometry_laws::four_bytes;
use crate::gpu::grass::{grass_place, GrassPlace};
use crate::gpu::material_laws::begins;
use crate::gpu::materials::{record_at, V3, V4};
use crate::gpu::meshes::PackedModel;
use crate::gpu::paths::position_is_first;
use crate::gpu::terrain::{slice_count, slice_order};
use vstd::prelude::*;

verus! {

/// A clump of grass is twenty bytes of the file: its place, its turn and its size.
pub proof fn clumps_are_read_from_twenty_bytes(bin: Seq<u8>, i: int)
    requires
        0 <= i,
        20 * i + 20 <= bin.len(),
    ensures
        ({
            let s = seed_at(bin, i);
            &&& s.x.bits == four_bytes(bin, 20 * i)
            &&& s.y.bits == four_bytes(bin, 20 * i + 4)
            &&& s.z.bits == four_bytes(bin, 20 * i + 8)
            &&& s.turn.bits == four_bytes(bin, 20 * i + 12)
            &&& s.scale.bits == four_bytes(bin, 20 * i + 16)
        }),
{
    assert(i * 20 == 20 * i);
}

/// The texture of the grass is taken from where it is said to be, else from the root of the pack, else
/// from among the terrain layers; without any there is no grass.
pub proof fn grass_is_looked_for_in_turn(as_given: bool, at_root: bool, in_layers: bool)
    ensures
        as_given ==> grass_place(as_given, at_root, in_layers) == Some(GrassPlace::AsGiven),
        !as_given && at_root ==> grass_place(as_given, at_root, in_layers) == Some(GrassPlace::AtRoot),
        !as_given && !at_root && in_layers ==> grass_place(as_given, at_root, in_layers) == Some(GrassPlace::InLayers),
        !as_given && !at_root && !in_layers ==> grass_place(as_given, at_root, in_layers) is None,
{
}

proof fn corner_stands_there(corners: Seq<V3>, mat: u32, n: nat, k: int, j: int)
    requires
        0 <= k < n,
        0 <= j < 13,
    ensures
        corners_words(corners, mat, n).len() == 13 * n,
        corners_words(corners, mat, n)[13 * k + j] == corner_words(corners, mat, k)[j],
    decreases n,
{
    if n > 1 {
        corner_stands_there(corners, mat, (n - 1) as nat, 0, 0);
    } else {
        assert(corners_words(corners, mat, 0).len() == 0);
    }
    if k < n - 1 {
        corner_stands_there(corners, mat, (n - 1) as nat, k, j);
    }
}

/// Corner `k` of the grass mesh stands where the map's grass has it, faces up, is white and has the
/// material of grass; the corners of a quad go round its texture.
pub proof fn grass_corners_face_up(p: PackedModel, mat: u32, g: GrassIn, k: int)
    requires
        g.corners@.len() == 12,
        0 <= k < 12,
    ensures
        ({
            let w = with_grass(p, mat, g).vertex_data;
            let at = p.vertex_data.len() + 13 * k;
            let c = g.corners@[k];
            &&& w.len() == p.vertex_data.len() + 156
            &&& w[at] == c.x && w[at + 1] == c.y && w[at + 2] == c.z
            &&& w[at + 3].bits == 0 && w[at + 4].bits == 0x3f80_0000 && w[at + 5].bits == 0
            &&& w[at + 6].bits == (if k % 4 == 1 || k % 4 == 2 {
                0x3f80_0000u32
            } else {
                0
            })
            &&& w[at + 7].bits == (if k % 4 == 0 || k % 4 == 1 {
                0x3f80_0000u32
            } else {
                0
            })
            &&& w[at + 8].bits == mat
            &&& w[at + 9].bits == 0x3f80_0000 && w[at + 10].bits == 0x3f80_0000 && w[at + 11].bits == 0x3f80_0000
                && w[at + 12].bits == 0x3f80_0000
        }),
{
    let w = corners_words(g.corners@, mat, 12);
    let own = corner_words(g.corners@, mat, k);
    corner_stands_there(g.corners@, mat, 12, k, 0);
    corner_stands_there(g.corners@, mat, 12, k, 1);
    corner_stands_there(g.corners@, mat, 12, k, 2);
    corner_stands_there(g.corners@, mat, 12, k, 3);
    corner_stands_there(g.corners@, mat, 12, k, 4);
    corner_stands_there(g.corners@, mat, 12, k, 5);
    corner_stands_there(g.corners@, mat, 12, k, 6);
    corner_stands_there(g.corners@, mat, 12, k, 7);
    corner_stands_there(g.corners@, mat, 12, k, 8);
    corner_stands_there(g.corners@, mat, 12, k, 9);
    corner_stands_there(g.corners@, mat, 12, k, 10);
    corner_stands_there(g.corners@, mat, 12, k, 11);
    corner_stands_there(g.corners@, mat, 12, k, 12);
}

proof fn quad_stands_there(n: nat, q: int)
    requires
        0 <= q < n <= 0x1000_0000,
    ensures
        quad_indices(n).len() == 6 * n,
        quad_indices(n)[6 * q] == 4 * q,
        quad_indices(n)[6 * q + 1] == 4 * q + 1,
        quad_indices(n)[6 * q + 2] == 4 * q + 2,
        quad_indices(n)[6 * q + 3] == 4 * q,
        quad_indices(n)[6 * q + 4] == 4 * q + 2,
        quad_indices(n)[6 * q + 5] == 4 * q + 3,
    decreases n,
{
    if n > 1 {
        quad_stands_there((n - 1) as nat, 0);
    } else {
        assert(quad_indices(0).len() == 0);
    }
    if q < n - 1 {
        quad_stands_there((n - 1) as nat, q);
    }
}

/// Each quad of the grass is two triangles over its own four corners, which share the diagonal from its
/// first corner to its third.
pub proof fn quads_of_grass_are_two_triangles(p: PackedModel, mat: u32, g: GrassIn, q: int)
    requires
        0 <= q < 3,
    ensures
        ({
            let i = with_grass(p, mat, g).index_data;
            let at = p.index_data.len() + 6 * q;
            &&& i.len() == p.index_data.len() + 18
            &&& i[at] == 4 * q && i[at + 1] == 4 * q + 1 && i[at + 2] == 4 * q + 2
            &&& i[at + 3] == 4 * q && i[at + 4] == 4 * q + 2 && i[at + 5] == 4 * q + 3
        }),
{
    quad_stands_there(3, q);
}

/// Grass is one more mesh, the last, with an instance for each clump where the clump stands; all that
/// was there before stays as it is.
pub proof fn grass_is_one_more_mesh(p: PackedModel, mat: u32, g: GrassIn, i: int)
    requires
        0 <= i < g.clumps@.len(),
        p.mesh_meta.len() < u32::MAX,
        p.index_data.len() + 18 <= u32::MAX,
        p.instances.len() + g.clumps@.len() <= u32::MAX,
    ensures
        ({
            let w = with_grass(p, mat, g);
            let r = w.instances[p.instances.len() + i];
            let m = w.mesh_meta.last();
            &&& w.instances.len() == p.instances.len() + g.clumps@.len()
            &&& w.instances.take(p.instances.len() as int) == p.instances
            &&& (r.m0, r.m1, r.m2, r.sphere) == (
                g.clumps@[i].m0,
                g.clumps@[i].m1,
                g.clumps@[i].m2,
                g.clumps@[i].sphere,
            )
            &&& r.mesh == p.mesh_meta.len()
            &&& r.kind == 1
            &&& w.mesh_meta.len() == p.mesh_meta.len() + 1
            &&& w.mesh_meta.drop_last() == p.mesh_meta
            &&& m.index_count == 18
            &&& m.first_index == p.index_data.len()
            &&& m.instance_base == p.instances.len()
            &&& m.instance_count == g.clumps@.len()
            &&& m.blend_class == 0
            &&& w.blend_meshes == p.blend_meshes
            &&& w.vertices == p.vertices + 12
        }),
{
    let w = with_grass(p, mat, g);
    assert(w.instances.take(p.instances.len() as int) =~= p.instances);
    assert(w.mesh_meta.drop_last() =~= p.mesh_meta);
}

/// The material of grass is cut out at 0.35, matte at 0.9 and has neither normal map nor glow.
pub proof fn grass_is_cut_out_and_matte(index: u32, tint: V4)
    ensures
        ({
            let r = grass_record(index, tint);
            &&& r.albedo_index == index && r.tint == tint
            &&& r.flags.cutout && !r.flags.blend && !r.flags.terrain && !r.flags.water && !r.flags.decal
                && !r.flags.detail && !r.flags.vp && !r.flags.rfa && !r.flags.softcutout
            &&& r.alpha_cutoff.bits == 0x3eb3_3333
            &&& r.roughness.bits == 0x3f66_6666
            &&& r.normal_index == 0xffff_ffff && r.emissive_index == 0xffff_ffff
            &&& r.uv_xform.x.bits == 0x3f80_0000 && r.uv_xform.y.bits == 0x3f80_0000 && r.uv_xform.z.bits == 0
                && r.uv_xform.w.bits == 0
            &&& r.detail_flags == 0
        }),
{
}

/// The grass of a map has the material behind all others, whose texture is that of the grass in the
/// list of the map; all that the map has besides is there as it is without grass.
pub proof fn grass_has_the_last_material(pack: PackIn, g: GrassIn)
    requires
        pack.grass == Some(g),
        pack.splat().albedo.len() < 0xffff_ffff,
    ensures
        ({
            let b = pack.blob();
            let m = b.materials.last();
            &&& b.materials.len() == pack.records().len() + 1
            &&& b.materials.drop_last() == pack.records()
            &&& m.albedo_index < b.albedo.len() && b.albedo[m.albedo_index as int] == g.albedo@
            &&& begins(b.albedo, pack.splat().albedo)
            &&& b.packed == with_grass(pack.geometry(), pack.records().len() as u32, g)
            &&& b.normal == pack.table().normal && b.vp == pack.table().vp
            &&& b.layer_albedo == pack.splat().layer_albedo && b.layer_rep == pack.splat().layer_rep && b.ctrl_idx
                == pack.splat().ctrl_idx
        }),
{
    position_is_first(pack.splat().albedo, g.albedo@);
    assert(pack.blob().materials.drop_last() =~= pack.records());
}

/// Without terrain every record is that of its material, and without grass there is no other.
pub proof fn records_are_those_of_the_materials(pack: PackIn, i: int)
    requires
        pack.tiles is None,
        pack.grass is None,
        0 <= i < pack.materials@.len(),
    ensures
        pack.blob().materials.len() == pack.materials@.len(),
        pack.blob().materials[i] == record_at(pack.materials@, pack.parts@, pack.rules, i),
        pack.blob().albedo == pack.table().albedo,
        pack.blob().packed == pack.geometry(),
{
}

/// The names of the slices are those of the tiles in the order of their slices.
pub proof fn slices_are_named_by_their_tiles(pack: PackIn, i: int)
    requires
        pack.tiles is Some,
        0 <= i < slice_count(pack.tiles->0@),
    ensures
        slice_count(pack.tiles->0@) <= 16,
        slice_count(pack.tiles->0@) <= pack.tiles->0@.len(),
        pack.slice_names()[i] == pack.tiles->0@[slice_order(pack.tiles->0@)[i]].name@,
{
}

/// A map without a mesh or without an instance is not drawn, every other is.
pub proof fn empty_maps_are_not_drawn(b: BlobModel)
    ensures
        b.packed.mesh_meta.len() == 0 ==> !drawable(b),
        b.packed.instances.len() == 0 ==> !drawable(b),
        b.packed.mesh_meta.len() > 0 && b.packed.instances.len() > 0 ==> drawable(b),
{
}

} // verus!
