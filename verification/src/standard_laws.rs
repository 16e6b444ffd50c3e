//! What the standard render path makes of the materials and meshes of a pack.
use crate::f32bits::{float, F32};
use crate::standard::{
    alpha_of, glow_path, green_flipped, key_at, parts_for, parts_of, picture_at, placed_instances,
    placed_parts, standard_of, AlphaMode, BaseColor, PackMaterial, Part, Placed, StdMesh, SubMesh,
};
use vstd::prelude::*;

verus! {

/// Turning the green around touches the second byte of each four and no other.
pub proof fn only_green_is_turned(px: Seq<u8>, i: int)
    requires
        0 <= i,
        4 * i + 3 < px.len(),
    ensures
        green_flipped(px).len() == px.len(),
        green_flipped(px)[4 * i] == px[4 * i],
        green_flipped(px)[4 * i + 1] + px[4 * i + 1] == 255,
        green_flipped(px)[4 * i + 2] == px[4 * i + 2],
        green_flipped(px)[4 * i + 3] == px[4 * i + 3],
{
}

/// A picture has the number of the first key that is its own; a new one comes last.
pub proof fn pictures_are_numbered_as_asked_for(v: Seq<(Seq<char>, bool)>, k: (Seq<char>, bool))
    ensures
        0 <= key_at(v, k) <= v.len(),
        key_at(v, k) < v.len() ==> v[key_at(v, k)] == k,
        forall|j: int| 0 <= j < key_at(v, k) ==> #[trigger] v[j] != k,
        !v.contains(k) <==> key_at(v, k) == v.len(),
    decreases v.len(),
{
    if v.len() > 0 && v[0] != k {
        let rest = v.drop_first();
        pictures_are_numbered_as_asked_for(rest, k);
        assert forall|j: int| 0 <= j < key_at(v, k) implies #[trigger] v[j] != k by {
            if j > 0 {
                assert(rest[j - 1] == v[j]);
            }
        }
        if v.contains(k) {
            let j = choose|j: int| 0 <= j < v.len() && v[j] == k;
            assert(rest[j - 1] == k);
        }
    } else if v.len() > 0 {
        assert(v[0] == k);
    }
}

/// Only cutouts are cut, at their own threshold or at one half where they have none above nothing;
/// glass, decals and water are blended, and everything else is opaque.
pub proof fn alpha_is_used_by_role(role: Seq<char>, cutoff: F32)
    ensures
        role == "cutout"@ && float(0).lt(cutoff) ==> alpha_of(role, cutoff) == AlphaMode::Mask(cutoff),
        role == "cutout"@ && !float(0).lt(cutoff) ==> alpha_of(role, cutoff) == AlphaMode::Mask(float(0x3f00_0000)),
        role == "glass"@ || role == "decal"@ || role == "water"@ ==> alpha_of(role, cutoff) == AlphaMode::Blend,
        role != "cutout"@ && role != "glass"@ && role != "decal"@ && role != "water"@ ==> alpha_of(role, cutoff)
            == AlphaMode::Opaque,
{
    reveal_strlit("cutout");
    reveal_strlit("glass");
    reveal_strlit("decal");
    reveal_strlit("water");
    assert("cutout"@.len() == 6 && "glass"@.len() == 5 && "decal"@.len() == 5 && "water"@.len() == 5);
}

/// The engine's material is that of the pack: water is dark, smooth and shows no picture, with an alpha
/// between 0.4 and 0.9; all others have their tint, their picture and their roughness, of which the
/// usual is 0.7 and the least 0.05. Decals are pulled forward, and faces are hidden from behind unless
/// both sides are shown.
pub proof fn standard_materials_follow_the_pack(m: PackMaterial)
    ensures
        ({
            let s = standard_of(m);
            let water = m.role@ == "water"@;
            let low = float(0x3ecc_cccd);
            let high = float(0x3f66_6666);
            &&& !water ==> s.base == BaseColor::Tint(m.tint)
            &&& s.base_texture == !water
            &&& water ==> (s.base matches BaseColor::Water(c) && c.x.bits == 0x3c75_c28f && c.y.bits == 0x3d0f_5c29
                && c.z.bits == 0x3d38_51ec && (low.le(m.tint.w) && m.tint.w.le(high) ==> c.w == m.tint.w) && (
            m.tint.w.lt(low) ==> c.w == low) && (high.lt(m.tint.w) ==> c.w == high))
            &&& water ==> s.roughness.bits == 0x3da3_d70a
            &&& !water && m.roughness is None ==> s.roughness.bits == 0x3f33_3333
            &&& !water && m.roughness is Some && float(0x3d4c_cccd).le(m.roughness->0) && m.roughness->0.le(
                float(0x3f80_0000),
            ) ==> s.roughness == m.roughness->0
            &&& !water && m.roughness is Some && m.roughness->0.lt(float(0x3d4c_cccd)) ==> s.roughness.bits
                == 0x3d4c_cccd
            &&& m.metallic is Some ==> s.metallic == m.metallic->0
            &&& m.metallic is None ==> s.metallic.bits == 0
            &&& m.emissive is Some ==> s.emissive == m.emissive->0.factor
            &&& m.emissive is None ==> s.emissive.x.bits == 0 && s.emissive.y.bits == 0 && s.emissive.z.bits == 0
            &&& s.alpha == alpha_of(m.role@, m.alpha_cutoff)
            &&& s.double_sided == m.double_sided && s.cull_back == !m.double_sided
            &&& m.role@ == "decal"@ ==> s.depth_bias.bits == 0x4080_0000
            &&& m.role@ != "decal"@ ==> s.depth_bias.bits == 0
        }),
{
}

/// A picture is asked for at its own path, where there is one.
pub proof fn pictures_are_those_of_the_material(path: Option<String>, srgb: bool, flip: bool, m: PackMaterial)
    ensures
        path is None <==> picture_at(path, srgb, flip) is None,
        path is Some ==> picture_at(path, srgb, flip)->0.path == path->0@ && picture_at(path, srgb, flip)->0.srgb == srgb
            && picture_at(path, srgb, flip)->0.flip == flip,
        m.emissive is Some ==> glow_path(m) == m.emissive->0.texture,
        m.emissive is None ==> glow_path(m) is None,
{
}

/// Every run of indices that lies inside its mesh becomes a part, in their order, with its own bounds
/// and material; a mesh that cannot be decoded has none.
pub proof fn runs_inside_become_parts(m: StdMesh, k: usize, n: nat)
    requires
        n <= m.submeshes@.len(),
    ensures
        parts_of(m, k, n) == m.submeshes@.take(n as int).filter(
            |s: SubMesh| m.indices is Some && s.idx_start + s.idx_count <= m.indices->0,
        ).map_values(
            |s: SubMesh|
                Part {
                    mesh: k,
                    start: s.idx_start as u64,
                    end: (s.idx_start + s.idx_count) as u64,
                    material_id: s.material_id,
                },
        ),
    decreases n,
{
    reveal(Seq::filter);
    let s = m.submeshes@.take(n as int);
    let pred = |s: SubMesh| m.indices is Some && s.idx_start + s.idx_count <= m.indices->0;
    if n > 0 {
        runs_inside_become_parts(m, k, (n - 1) as nat);
        assert(s.drop_last() =~= m.submeshes@.take(n - 1));
    } else {
        assert(s =~= Seq::empty());
    }
    assert(parts_of(m, k, n) =~= s.filter(pred).map_values(
        |s: SubMesh|
            Part {
                mesh: k,
                start: s.idx_start as u64,
                end: (s.idx_start + s.idx_count) as u64,
                material_id: s.material_id,
            },
    ));
}

/// The parts under an id are those of the meshes that have it: where one mesh only has it, just that
/// mesh's.
pub proof fn parts_stand_under_their_id(ms: Seq<StdMesh>, d: int, n: nat, k: int)
    requires
        n <= ms.len() <= usize::MAX,
        0 <= k < n,
        ms[k].id == d,
        forall|j: int| 0 <= j < n && j != k ==> (#[trigger] ms[j]).id != d,
    ensures
        parts_for(ms, d, n) == parts_of(ms[k], k as usize, ms[k].submeshes@.len()),
    decreases n,
{
    let rest = parts_for(ms, d, (n - 1) as nat);
    if k == n - 1 {
        no_parts_of_others(ms, d, (n - 1) as nat);
        assert(parts_for(ms, d, n) =~= parts_of(ms[k], k as usize, ms[k].submeshes@.len()));
    } else {
        assert(ms[n - 1].id != d);
        parts_stand_under_their_id(ms, d, (n - 1) as nat, k);
    }
}

proof fn no_parts_of_others(ms: Seq<StdMesh>, d: int, n: nat)
    requires
        n <= ms.len(),
        forall|j: int| 0 <= j < n ==> (#[trigger] ms[j]).id != d,
    ensures
        parts_for(ms, d, n) == Seq::<Part>::empty(),
    decreases n,
{
    if n > 0 {
        assert(ms[n - 1].id != d);
        no_parts_of_others(ms, d, (n - 1) as nat);
    }
}

/// What is put into the scene is each part of each instance's mesh, once; instances whose mesh does not
/// exist put nothing there. It stands in the order of the instances, and then of the parts.
pub proof fn every_part_of_every_instance_is_placed(mesh_ids: Seq<u32>, parts: Seq<Vec<Part>>, n: nat)
    requires
        n <= mesh_ids.len() <= usize::MAX,
    ensures
        forall|p: Placed| #[trigger]
            placed_instances(mesh_ids, parts, n).contains(p) <==> (p.instance < n && mesh_ids[p.instance as int]
                < parts.len() && p.part < parts[mesh_ids[p.instance as int] as int]@.len()),
        forall|i: int, j: int|
            0 <= i < j < placed_instances(mesh_ids, parts, n).len() ==> (#[trigger] placed_instances(
                mesh_ids,
                parts,
                n,
            )[i]).instance < (#[trigger] placed_instances(mesh_ids, parts, n)[j]).instance || placed_instances(
                mesh_ids,
                parts,
                n,
            )[i].instance == placed_instances(mesh_ids, parts, n)[j].instance && placed_instances(
                mesh_ids,
                parts,
                n,
            )[i].part < placed_instances(mesh_ids, parts, n)[j].part,
    decreases n,
{
    if n > 0 {
        let m = (n - 1) as nat;
        every_part_of_every_instance_is_placed(mesh_ids, parts, m);
        let rest = placed_instances(mesh_ids, parts, m);
        let all = placed_instances(mesh_ids, parts, n);
        let id = mesh_ids[n - 1];
        if id < parts.len() {
            let k = parts[id as int]@.len();
            vstd::std_specs::vec::axiom_spec_len(&parts[id as int]);
            assert(k <= usize::MAX);
            let own = placed_parts((n - 1) as usize, k);
            assert(all == rest + own);
            assert forall|p: Placed| #[trigger]
                all.contains(p) <==> (p.instance < n && mesh_ids[p.instance as int] < parts.len() && p.part
                    < parts[mesh_ids[p.instance as int] as int]@.len()) by {
                if all.contains(p) {
                    let i = choose|i: int| 0 <= i < all.len() && all[i] == p;
                    if i < rest.len() {
                        assert(rest[i] == p);
                        assert(rest.contains(p));
                    } else {
                        assert(own[i - rest.len()] == p);
                    }
                }
                if p.instance < n && mesh_ids[p.instance as int] < parts.len() && p.part
                    < parts[mesh_ids[p.instance as int] as int]@.len() {
                    if p.instance == n - 1 {
                        assert(own[p.part as int] == p);
                        assert(all[rest.len() + p.part as int] == p);
                    } else {
                        assert(rest.contains(p));
                        let i = choose|i: int| 0 <= i < rest.len() && rest[i] == p;
                        assert(all[i] == p);
                    }
                }
            }
            assert forall|i: int, j: int| 0 <= i < j < all.len() implies (#[trigger] all[i]).instance < (
            #[trigger] all[j]).instance || all[i].instance == all[j].instance && all[i].part < all[j].part by {
                if i < rest.len() {
                    assert(all[i] == rest[i]);
                    assert(rest.contains(rest[i]));
                    if j < rest.len() {
                        assert(all[j] == rest[j]);
                    } else {
                        assert(all[j] == own[j - rest.len()]);
                    }
                } else {
                    assert(all[i] == own[i - rest.len()]);
                    assert(all[j] == own[j - rest.len()]);
                }
            }
        } else {
            assert(all == rest);
            assert forall|p: Placed| #[trigger]
                all.contains(p) <==> (p.instance < n && mesh_ids[p.instance as int] < parts.len() && p.part
                    < parts[mesh_ids[p.instance as int] as int]@.len()) by {
                assert(rest.contains(p) <==> (p.instance < m && mesh_ids[p.instance as int] < parts.len() && p.part
                    < parts[mesh_ids[p.instance as int] as int]@.len()));
            }
        }
    }
}

} // verus!
