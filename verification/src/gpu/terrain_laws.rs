//! What the splat table and the tagged materials say of the terrain tiles.
use crate::gpu::material_laws::begins;
use crate::gpu::materials::GpuMaterial;
use crate::gpu::paths::{interned, position, position_is_first};
use crate::gpu::terrain::{
    ctrl_count, digit_at, empty_splat, filled, layer_of, layers_done, next_match, scan_layers,
    slice_count, slice_of, slice_order, splat_of, tagged, tagged_all, tagged_parts, texture_count,
    texture_count_covers, tile_names, tile_of, tiles_among, whole_match, with_ctrl, with_layers,
    with_tile, with_tiles, LayerIn, SplatModel, TerrainMesh, TileIn,
};
use crate::json::{Json, Member};
use crate::text::{occurs_at, sorted_places_bound};
use vstd::prelude::*;

verus! {

/// A splat table goes on from another: the paths that were in it are still there.
spec fn keeps_paths(t: SplatModel, s: SplatModel) -> bool {
    begins(t.albedo, s.albedo)
}

proof fn interned_is_found(s: Seq<Seq<char>>, p: Seq<char>)
    ensures
        begins(interned(s, p), s),
        interned(s, p).len() <= s.len() + 1,
        0 <= position(s, p) < interned(s, p).len(),
        interned(s, p)[position(s, p)] == p,
{
    position_is_first(s, p);
}

/// The control maps of one tile stand at the three places of its slice; every other place is kept.
proof fn ctrl_of_one(m: SplatModel, maps: Seq<Option<String>>, si: int, k: nat)
    requires
        k <= 3,
        k <= maps.len(),
        0 <= si < 16,
        m.ctrl_idx.len() == 48,
        m.albedo.len() + 3 < 0xffff_ffff,
    ensures
        ({
            let t = with_ctrl(m, maps, si, k);
            &&& t.ctrl_idx.len() == 48
            &&& keeps_paths(t, m)
            &&& t.albedo.len() <= m.albedo.len() + k
            &&& t.layer_albedo == m.layer_albedo
            &&& t.layer_rep == m.layer_rep
            &&& forall|j: int| 0 <= j < 48 && !(si * 3 <= j < si * 3 + k) ==> #[trigger] t.ctrl_idx[j] == m.ctrl_idx[j]
            &&& forall|j: int|
                0 <= j < k ==> match #[trigger] maps[j] {
                    Some(p) => t.ctrl_idx[si * 3 + j] < t.albedo.len() && t.albedo[t.ctrl_idx[si * 3
                        + j] as int] == p@,
                    None => t.ctrl_idx[si * 3 + j] == m.ctrl_idx[si * 3 + j],
                }
        }),
    decreases k,
{
    if k > 0 {
        let q = (k - 1) as nat;
        ctrl_of_one(m, maps, si, q);
        let p = with_ctrl(m, maps, si, q);
        let t = with_ctrl(m, maps, si, k);
        if let Some(c) = maps[k - 1] {
            interned_is_found(p.albedo, c@);
            assert(t.ctrl_idx[si * 3 + k - 1] == position(p.albedo, c@));
        }
        assert forall|j: int| 0 <= j < k implies match #[trigger] maps[j] {
            Some(p) => t.ctrl_idx[si * 3 + j] < t.albedo.len() && t.albedo[t.ctrl_idx[si * 3 + j] as int] == p@,
            None => t.ctrl_idx[si * 3 + j] == m.ctrl_idx[si * 3 + j],
        } by {
            if j < q {
                assert(t.ctrl_idx[si * 3 + j] == p.ctrl_idx[si * 3 + j]);
            }
        }
    }
}

proof fn filled_places(s: Seq<u32>, places: Seq<int>, v: u32, k: nat, j: int)
    requires
        k <= places.len(),
        0 <= j < s.len(),
        forall|i: int| 0 <= i < places.len() ==> 0 <= #[trigger] places[i] < s.len(),
    ensures
        filled(s, places, v, k).len() == s.len(),
        (exists|i: int| 0 <= i < k && #[trigger] places[i] == j) ==> filled(s, places, v, k)[j] == v,
        (forall|i: int| 0 <= i < k ==> #[trigger] places[i] != j) ==> filled(s, places, v, k)[j] == s[j],
    decreases k,
{
    if k > 0 {
        filled_places(s, places, v, (k - 1) as nat, j);
        assert(places[k - 1] == places[k - 1]);
    }
}

/// Whether no two layers of a tile have the same number.
pub open spec fn numbered_apart(layers: Seq<LayerIn>) -> bool {
    forall|i: int, j: int| 0 <= i < j < layers.len() ==> (#[trigger] layers[i]).idx != (#[trigger] layers[j]).idx
}

/// Whether layer `f` is the first of those up to `k` that count and whose texture is there.
pub open spec fn first_present(layers: Seq<LayerIn>, k: int, f: int) -> bool {
    &&& 0 <= f < k
    &&& layers[f].idx < 12 && layers[f].present
    &&& forall|j: int| 0 <= j < f ==> (#[trigger] layers[j]).idx >= 12 || !layers[j].present
}

proof fn layers_of_one(m: SplatModel, layers: Seq<LayerIn>, k: nat)
    requires
        k <= layers.len(),
        numbered_apart(layers),
        m.layer_albedo.len() == 12,
        m.layer_rep.len() == 12,
        m.albedo.len() + k < 0xffff_ffff,
    ensures
        ({
            let s = scan_layers(m, layers, k);
            &&& s.m.layer_albedo.len() == 12 && s.m.layer_rep.len() == 12
            &&& s.m.ctrl_idx == m.ctrl_idx && s.m.linear == m.linear
            &&& keeps_paths(s.m, m)
            &&& s.m.albedo.len() <= m.albedo.len() + k
            &&& forall|i: int| 0 <= i < s.missing.len() ==> 0 <= #[trigger] s.missing[i] < 12
            &&& forall|j: int|
                0 <= j < k && (#[trigger] layers[j]).idx < 12 ==> s.m.layer_rep[layers[j].idx as int] == layers[j].rep
            &&& forall|j: int|
                0 <= j < k && (#[trigger] layers[j]).idx < 12 && layers[j].present ==> {
                    let at = s.m.layer_albedo[layers[j].idx as int];
                    at < s.m.albedo.len() && s.m.albedo[at as int] == layers[j].path@
                }
            &&& forall|i: int| 0 <= i < s.missing.len() ==> missing_from(layers, k as int, #[trigger] s.missing[i])
            &&& forall|j: int|
                0 <= j < k && (#[trigger] layers[j]).idx < 12 && !layers[j].present ==> s.missing.contains(
                    layers[j].idx as int,
                )
            &&& s.first matches Some(f) ==> f < s.m.albedo.len() && exists|j: int| #[trigger]
                first_present(layers, k as int, j) && s.m.albedo[f as int] == layers[j].path@
            &&& s.first is None ==> forall|j: int|
                0 <= j < k ==> (#[trigger] layers[j]).idx >= 12 || !layers[j].present
        }),
    decreases k,
{
    if k > 0 {
        let q = (k - 1) as nat;
        layers_of_one(m, layers, q);
        let p = scan_layers(m, layers, q);
        let s = scan_layers(m, layers, k);
        let l = layers[k - 1];
        if l.idx < 12 {
            if l.present {
                interned_is_found(p.m.albedo, l.path@);
                let at = position(p.m.albedo, l.path@) as u32;
                if p.first is None {
                    assert(first_present(layers, k as int, k - 1));
                } else {
                    let j = choose|j: int| #[trigger]
                        first_present(layers, q as int, j) && p.m.albedo[p.first->0 as int] == layers[j].path@;
                    assert(first_present(layers, k as int, j));
                }
            } else {
                assert(s.missing[p.missing.len() as int] == l.idx as int);
                assert(s.missing.contains(l.idx as int));
                assert(missing_from(layers, k as int, l.idx as int)) by {
                    assert(layers[k - 1].idx == l.idx);
                }
                if p.first is Some {
                    let j = choose|j: int| #[trigger]
                        first_present(layers, q as int, j) && p.m.albedo[p.first->0 as int] == layers[j].path@;
                    assert(first_present(layers, k as int, j));
                }
            }
        } else if p.first is Some {
            let j = choose|j: int| #[trigger]
                first_present(layers, q as int, j) && p.m.albedo[p.first->0 as int] == layers[j].path@;
            assert(first_present(layers, k as int, j));
        }
        assert forall|i: int| 0 <= i < s.missing.len() implies missing_from(layers, k as int, #[trigger] s.missing[i]) by {
            if i < p.missing.len() {
                assert(s.missing[i] == p.missing[i]);
                assert(missing_from(layers, q as int, p.missing[i]));
                let j = choose|j: int|
                    0 <= j < q && (#[trigger] layers[j]).idx == p.missing[i] && !layers[j].present;
                assert(layers[j].idx == s.missing[i]);
            }
        }
        assert forall|j: int| 0 <= j < k && (#[trigger] layers[j]).idx < 12 && !layers[j].present implies s.missing.contains(
            layers[j].idx as int,
        ) by {
            if j < q {
                assert(p.missing.contains(layers[j].idx as int));
                let i = choose|i: int| 0 <= i < p.missing.len() && p.missing[i] == layers[j].idx as int;
                assert(s.missing[i] == layers[j].idx as int);
            }
        }
        assert forall|j: int| 0 <= j < k && (#[trigger] layers[j]).idx < 12 && layers[j].present implies {
            let at = s.m.layer_albedo[layers[j].idx as int];
            at < s.m.albedo.len() && s.m.albedo[at as int] == layers[j].path@
        } by {
            if j < q {
                assert(layers[j].idx != layers[k - 1].idx);
                assert(s.m.layer_albedo[layers[j].idx as int] == p.m.layer_albedo[layers[j].idx as int]);
            }
        }
    }
}

/// Whether the texture of the layer with number `idx` is missing.
pub open spec fn missing_from(layers: Seq<LayerIn>, k: int, idx: int) -> bool {
    exists|j: int| 0 <= j < k && (#[trigger] layers[j]).idx == idx && !layers[j].present
}

/// Each layer of the tile that lists them stands at its own number, with its own repetition; numbers
/// from twelve on are passed over. A layer whose texture is missing shows the first that is there.
pub proof fn layers_stand_at_their_numbers(m: SplatModel, layers: Seq<LayerIn>, j: int)
    requires
        numbered_apart(layers),
        0 <= j < layers.len(),
        layers[j].idx < 12,
        m.layer_albedo.len() == 12,
        m.layer_rep.len() == 12,
        m.albedo.len() + layers.len() < 0xffff_ffff,
    ensures
        ({
            let t = with_layers(m, layers);
            let at = t.layer_albedo[layers[j].idx as int];
            &&& t.layer_rep[layers[j].idx as int] == layers[j].rep
            &&& layers[j].present ==> at < t.albedo.len() && t.albedo[at as int] == layers[j].path@
            &&& !layers[j].present ==> forall|f: int| #[trigger]
                first_present(layers, layers.len() as int, f) ==> at < t.albedo.len() && t.albedo[at as int]
                    == layers[f].path@
            &&& (forall|f: int| 0 <= f < layers.len() ==> (#[trigger] layers[f]).idx >= 12 || !layers[f].present)
                ==> at == 0
            &&& t.ctrl_idx == m.ctrl_idx
            &&& begins(t.albedo, m.albedo)
        }),
{
    let s = scan_layers(m, layers, layers.len());
    layers_of_one(m, layers, layers.len());
    let fallback = match s.first {
        Some(f) => f,
        None => 0,
    };
    let idx = layers[j].idx as int;
    filled_places(s.m.layer_albedo, s.missing, fallback, s.missing.len(), idx);
    if layers[j].present {
        assert forall|i: int| 0 <= i < s.missing.len() implies #[trigger] s.missing[i] != idx by {
            if s.missing[i] == idx {
                assert(missing_from(layers, layers.len() as int, s.missing[i]));
                let g = choose|g: int|
                    0 <= g < layers.len() && (#[trigger] layers[g]).idx == s.missing[i] && !layers[g].present;
                if g < j {
                    assert(layers[g].idx != layers[j].idx);
                } else if g > j {
                    assert(layers[j].idx != layers[g].idx);
                }
            }
        }
    } else {
        assert(s.missing.contains(idx));
        let i = choose|i: int| 0 <= i < s.missing.len() && s.missing[i] == idx;
        assert(s.missing[i] == idx);
        let t = with_layers(m, layers);
        let at = t.layer_albedo[idx];
        assert(at == fallback);
        assert forall|f: int| #[trigger] first_present(layers, layers.len() as int, f) implies at < t.albedo.len()
            && t.albedo[at as int] == layers[f].path@ by {
            assert(layers[f].idx < 12 && layers[f].present);
            assert(s.first is Some);
            let g = choose|g: int| #[trigger]
                first_present(layers, layers.len() as int, g) && s.m.albedo[s.first->0 as int] == layers[g].path@;
            if g < f {
                assert(layers[g].idx >= 12 || !layers[g].present);
            } else if f < g {
                assert(layers[f].idx >= 12 || !layers[f].present);
            }
        }
    }
}

/// A layer whose number no tile gives keeps what the table had there.
proof fn layers_keep_shape(m: SplatModel, layers: Seq<LayerIn>, k: nat)
    requires
        k <= layers.len(),
        m.layer_albedo.len() == 12,
        m.layer_rep.len() == 12,
        m.albedo.len() + k < 0xffff_ffff,
    ensures
        ({
            let s = scan_layers(m, layers, k);
            &&& s.m.layer_albedo.len() == 12 && s.m.layer_rep.len() == 12
            &&& s.m.ctrl_idx == m.ctrl_idx
            &&& keeps_paths(s.m, m)
            &&& s.m.albedo.len() <= m.albedo.len() + k
            &&& forall|i: int| 0 <= i < s.missing.len() ==> 0 <= #[trigger] s.missing[i] < 12
        }),
    decreases k,
{
    if k > 0 {
        layers_keep_shape(m, layers, (k - 1) as nat);
        let p = scan_layers(m, layers, (k - 1) as nat);
        let l = layers[k - 1];
        if l.idx < 12 && l.present {
            interned_is_found(p.m.albedo, l.path@);
        }
    }
}

proof fn tile_keeps_shape(m: SplatModel, done: bool, t: TileIn, si: int)
    requires
        m.layer_albedo.len() == 12,
        m.layer_rep.len() == 12,
        m.ctrl_idx.len() == 48,
        0 <= si < 16,
        m.albedo.len() + 3 + (match t.layers {
            Some(l) => l@.len(),
            None => 0,
        }) < 0xffff_ffff,
    ensures
        ({
            let r = with_tile(m, done, t, si);
            &&& r.layer_albedo.len() == 12 && r.layer_rep.len() == 12 && r.ctrl_idx.len() == 48
            &&& keeps_paths(r, m)
            &&& r.albedo.len() <= m.albedo.len() + 3 + (match t.layers {
                Some(l) => l@.len(),
                None => 0,
            })
            &&& r.ctrl_idx == with_ctrl(m, t.ctrl_maps@, si, ctrl_count(t)).ctrl_idx
            &&& keeps_paths(r, with_ctrl(m, t.ctrl_maps@, si, ctrl_count(t)))
        }),
{
    ctrl_of_one(m, t.ctrl_maps@, si, ctrl_count(t));
    let c = with_ctrl(m, t.ctrl_maps@, si, ctrl_count(t));
    if let Some(l) = t.layers {
        if !done {
            layers_keep_shape(c, l@, l@.len());
            let s = scan_layers(c, l@, l@.len());
            let fallback = match s.first {
                Some(f) => f,
                None => 0,
            };
            filled_places(s.m.layer_albedo, s.missing, fallback, s.missing.len(), 0);
        }
    }
}

/// Whether the three places of slice `si` hold the control maps of tile `t`.
pub open spec fn holds_maps(m: SplatModel, si: int, t: TileIn) -> bool {
    forall|j: int|
        0 <= j < 3 && j < t.ctrl_maps@.len() ==> match #[trigger] t.ctrl_maps@[j] {
            Some(p) => m.ctrl_idx[si * 3 + j] < m.albedo.len() && m.albedo[m.ctrl_idx[si * 3 + j] as int] == p@,
            None => m.ctrl_idx[si * 3 + j] == 0,
        }
}

proof fn tiles_of_slices(m: SplatModel, tiles: Seq<TileIn>, order: Seq<int>, k: nat)
    requires
        m == empty_splat(m.albedo, m.linear),
        k <= 16,
        k <= order.len(),
        forall|i: int| 0 <= i < order.len() ==> 0 <= #[trigger] order[i] < tiles.len(),
        m.albedo.len() + 16 * texture_count(tiles, tiles.len()) < 0xffff_ffff,
    ensures
        ({
            let r = with_tiles(m, tiles, order, k);
            &&& r.layer_albedo.len() == 12 && r.layer_rep.len() == 12 && r.ctrl_idx.len() == 48
            &&& keeps_paths(r, m)
            &&& r.albedo.len() <= m.albedo.len() + k * texture_count(tiles, tiles.len())
            &&& forall|j: int| 3 * k <= j < 48 ==> #[trigger] r.ctrl_idx[j] == 0
            &&& forall|i: int| 0 <= i < k ==> holds_maps(r, i, tiles[#[trigger] order[i]])
        }),
    decreases k,
{
    let total = texture_count(tiles, tiles.len());
    if k == 0 {
        assert(0 * total == 0) by (nonlinear_arith);
    } else {
        let q = (k - 1) as nat;
        tiles_of_slices(m, tiles, order, q);
        let p = with_tiles(m, tiles, order, q);
        let t = tiles[order[q as int]];
        texture_count_covers(tiles, tiles.len(), order[q as int]);
        assert(q * total + total == k * total) by (nonlinear_arith)
            requires
                q + 1 == k,
        ;
        assert(k * total <= 16 * total) by (nonlinear_arith)
            requires
                k <= 16,
        ;
        let done = layers_done(tiles, order, q);
        tile_keeps_shape(p, done, t, q as int);
        ctrl_of_one(p, t.ctrl_maps@, q as int, ctrl_count(t));
        let r = with_tiles(m, tiles, order, k);
        assert(r == with_tile(p, done, t, q as int));
        let c = with_ctrl(p, t.ctrl_maps@, q as int, ctrl_count(t));
        assert forall|i: int| 0 <= i < k implies holds_maps(r, i, tiles[#[trigger] order[i]]) by {
            let u = tiles[order[i]];
            if i < q {
                assert(holds_maps(p, i, u));
                assert forall|j: int| 0 <= j < 3 && j < u.ctrl_maps@.len() implies match #[trigger] u.ctrl_maps@[j] {
                    Some(p) => r.ctrl_idx[i * 3 + j] < r.albedo.len() && r.albedo[r.ctrl_idx[i * 3 + j] as int]
                        == p@,
                    None => r.ctrl_idx[i * 3 + j] == 0,
                } by {
                    assert(c.ctrl_idx[i * 3 + j] == p.ctrl_idx[i * 3 + j]);
                }
            } else {
                assert forall|j: int| 0 <= j < 3 && j < u.ctrl_maps@.len() implies match #[trigger] u.ctrl_maps@[j] {
                    Some(p) => r.ctrl_idx[i * 3 + j] < r.albedo.len() && r.albedo[r.ctrl_idx[i * 3 + j] as int]
                        == p@,
                    None => r.ctrl_idx[i * 3 + j] == 0,
                } by {
                    assert(u.ctrl_maps@[j] == t.ctrl_maps@[j]);
                    assert(p.ctrl_idx[i * 3 + j] == 0);
                }
            }
        }
    }
}

/// The first sixteen tiles by name are the slices, and the three places of a slice hold the control
/// maps of its tile, in their order; the places of slices that there are not stay at zero.
pub proof fn slices_hold_the_maps_of_their_tiles(albedo: Seq<Seq<char>>, linear: Seq<u32>, tiles: Seq<TileIn>)
    requires
        albedo.len() + 16 * texture_count(tiles, tiles.len()) < 0xffff_ffff,
    ensures
        ({
            let r = splat_of(albedo, linear, tiles);
            let n = if tiles.len() < 16 {
                tiles.len() as int
            } else {
                16
            };
            &&& r.ctrl_idx.len() == 48
            &&& begins(r.albedo, albedo)
            &&& slice_order(tiles).len() == tiles.len()
            &&& forall|i: int| 0 <= i < n ==> holds_maps(r, i, tiles[#[trigger] slice_order(tiles)[i]])
            &&& forall|j: int| 3 * n <= j < 48 ==> #[trigger] r.ctrl_idx[j] == 0
        }),
{
    let order = slice_order(tiles);
    sorted_places_bound(tile_names(tiles), tiles.len());
    tiles_of_slices(empty_splat(albedo, linear), tiles, order, slice_count(tiles));
}

/// Layers are taken from one tile only: the first, by name, that lists any.
pub proof fn layers_come_from_the_first_tile_that_lists_any(tiles: Seq<TileIn>, order: Seq<int>, k: nat)
    requires
        k <= order.len(),
    ensures
        layers_done(tiles, order, k) <==> exists|i: int| 0 <= i < k && tiles[#[trigger] order[i]].layers is Some,
    decreases k,
{
    if k > 0 {
        layers_come_from_the_first_tile_that_lists_any(tiles, order, (k - 1) as nat);
        assert(order[k - 1] == order[k - 1]);
    }
}

/// A table without tiles has twelve layers that repeat once and show the first texture.
pub proof fn an_empty_table_has_twelve_layers(albedo: Seq<Seq<char>>, linear: Seq<u32>)
    ensures
        ({
            let m = empty_splat(albedo, linear);
            &&& m.layer_albedo.len() == 12 && m.layer_rep.len() == 12 && m.ctrl_idx.len() == 48
            &&& forall|i: int| 0 <= i < 12 ==> #[trigger] m.layer_albedo[i] == 0
            &&& forall|i: int| 0 <= i < 12 ==> (#[trigger] m.layer_rep[i]).bits == 0x3f80_0000
            &&& forall|i: int| 0 <= i < 48 ==> #[trigger] m.ctrl_idx[i] == 0
        }),
{
}

/// A record of a terrain tile keeps its textures, its place and its tint; it is matte, has no detail
/// maps and does not glow, and its slot is its slice.
pub proof fn terrain_keeps_its_textures(r: GpuMaterial, slice: u32)
    ensures
        ({
            let t = tagged(r, slice);
            &&& t.flags.terrain && !t.flags.detail && !t.flags.rfa
            &&& t.slot == slice
            &&& t.roughness.bits == 0x3f73_3333
            &&& t.detail_flags == 0
            &&& t.emissive_index == 0xffff_ffff
            &&& t.albedo_index == r.albedo_index && t.normal_index == r.normal_index
            &&& t.uv_xform == r.uv_xform && t.tint == r.tint
            &&& t.alpha_cutoff == r.alpha_cutoff && t.normal_scale == r.normal_scale
            &&& t.flags.cutout == r.flags.cutout && t.flags.blend == r.flags.blend && t.flags.water
                == r.flags.water && t.flags.decal == r.flags.decal && t.flags.vp == r.flags.vp
        }),
{
}

/// Whether terrain mesh `g` belongs to a slice and uses material `i`.
pub open spec fn lays_material(meshes: Seq<TerrainMesh>, names: Seq<Seq<char>>, g: int, i: int) -> bool {
    slice_of(meshes[g].name@, names, 0) is Some && exists|q: int|
        0 <= q < meshes[g].materials@.len() && #[trigger] meshes[g].materials@[q] == i
}

proof fn tagged_parts_of_one(recs: Seq<GpuMaterial>, mats: Seq<u32>, slice: u32, k: nat, i: int)
    requires
        k <= mats.len(),
        0 <= i < recs.len(),
    ensures
        tagged_parts(recs, mats, slice, k).len() == recs.len(),
        (exists|q: int| 0 <= q < k && #[trigger] mats[q] == i) ==> tagged_parts(recs, mats, slice, k)[i] == tagged(
            recs[i],
            slice,
        ),
        (forall|q: int| 0 <= q < k ==> #[trigger] mats[q] != i) ==> tagged_parts(recs, mats, slice, k)[i] == recs[i],
    decreases k,
{
    if k > 0 {
        tagged_parts_of_one(recs, mats, slice, (k - 1) as nat, i);
        let m = mats[k - 1];
        assert(mats[k - 1] == m);
        assert(tagged(tagged(recs[i], slice), slice) == tagged(recs[i], slice));
        if exists|q: int| 0 <= q < k && #[trigger] mats[q] == i {
            let q = choose|q: int| 0 <= q < k && #[trigger] mats[q] == i;
            if q < k - 1 {
                assert(mats[q] == i);
            }
            if !(exists|q: int| 0 <= q < k - 1 && #[trigger] mats[q] == i) {
                assert(m == i);
            }
        }
    }
}

/// A record is turned into that of a terrain tile exactly where a mesh of a slice uses its material,
/// and its slot is then the slice of the last such mesh; every other record is kept.
pub proof fn materials_of_slices_are_terrain(
    recs: Seq<GpuMaterial>,
    meshes: Seq<TerrainMesh>,
    names: Seq<Seq<char>>,
    k: nat,
    i: int,
)
    requires
        k <= meshes.len(),
        0 <= i < recs.len(),
    ensures
        tagged_all(recs, meshes, names, k).len() == recs.len(),
        (forall|g: int| 0 <= g < k ==> !#[trigger] lays_material(meshes, names, g, i)) ==> tagged_all(
            recs,
            meshes,
            names,
            k,
        )[i] == recs[i],
        forall|g: int|
            0 <= g < k && #[trigger] lays_material(meshes, names, g, i) && (forall|h: int|
                g < h < k ==> !#[trigger] lays_material(meshes, names, h, i)) ==> {
                &&& tagged_all(recs, meshes, names, k)[i].flags.terrain
                &&& tagged_all(recs, meshes, names, k)[i].slot == slice_of(meshes[g].name@, names, 0)->0 as u32
                &&& tagged_all(recs, meshes, names, k)[i].albedo_index == recs[i].albedo_index
            },
        tagged_all(recs, meshes, names, k)[i].albedo_index == recs[i].albedo_index,
    decreases k,
{
    if k > 0 {
        let q = (k - 1) as nat;
        materials_of_slices_are_terrain(recs, meshes, names, q, i);
        let p = tagged_all(recs, meshes, names, q);
        let m = meshes[k - 1];
        if let Some(s) = slice_of(m.name@, names, 0) {
            tagged_parts_of_one(p, m.materials@, s as u32, m.materials@.len(), i);
        }
        let r = tagged_all(recs, meshes, names, k);
        if lays_material(meshes, names, k - 1, i) {
            let s = slice_of(m.name@, names, 0)->0;
            assert(r[i] == tagged(p[i], s as u32));
        } else {
            assert(r[i] == p[i]) by {
                if slice_of(m.name@, names, 0) is Some {
                    assert forall|q: int| 0 <= q < m.materials@.len() implies #[trigger] m.materials@[q] != i by {
                        if m.materials@[q] == i {
                            assert(lays_material(meshes, names, k - 1, i));
                        }
                    }
                }
            }
        }
        assert forall|g: int|
            0 <= g < k && #[trigger] lays_material(meshes, names, g, i) && (forall|h: int|
                g < h < k ==> !#[trigger] lays_material(meshes, names, h, i)) implies r[i].flags.terrain
            && r[i].slot == slice_of(meshes[g].name@, names, 0)->0 as u32 && r[i].albedo_index
            == recs[i].albedo_index by {
            if g < q {
                assert(!lays_material(meshes, names, k - 1, i));
            }
        }
    }
}

/// A mesh belongs to the first slice whose name it holds as a whole token.
pub proof fn meshes_belong_to_the_first_slice_named(name: Seq<char>, names: Seq<Seq<char>>, from: int, s: int)
    requires
        0 <= from,
    ensures
        slice_of(name, names, from) == Some(s) <==> {
            &&& from <= s < names.len()
            &&& whole_match(name, names[s], 0)
            &&& forall|j: int| from <= j < s ==> !whole_match(name, #[trigger] names[j], 0)
        },
        slice_of(name, names, from) is None <==> forall|j: int|
            from <= j < names.len() ==> !whole_match(name, #[trigger] names[j], 0),
    decreases names.len() - from,
{
    if from < names.len() {
        meshes_belong_to_the_first_slice_named(name, names, from + 1, s);
        assert(names[from] == names[from]);
    }
}

proof fn first_match(name: Seq<char>, s: Seq<char>, from: int)
    requires
        0 <= from,
    ensures
        next_match(name, s, from) matches Some(i) ==> from <= i <= name.len() && occurs_at(name, s, i) && forall|j: int|
            from <= j < i ==> !#[trigger] occurs_at(name, s, j),
        next_match(name, s, from) is None ==> forall|j: int|
            from <= j <= name.len() ==> !#[trigger] occurs_at(name, s, j),
    decreases name.len() + 1 - from,
{
    if from <= name.len() && !occurs_at(name, s, from) {
        first_match(name, s, from + 1);
    }
}

/// A name that holds another as a whole token holds it at some place without a digit behind it. Where
/// the places at which it holds it do not overlap, that is enough.
pub proof fn whole_tokens_have_no_digit_behind(name: Seq<char>, s: Seq<char>, from: int)
    requires
        0 <= from,
        s.len() > 0,
    ensures
        whole_match(name, s, from) ==> exists|i: int|
            from <= i && #[trigger] occurs_at(name, s, i) && !digit_at(name, i + s.len()),
        (forall|i: int, j: int|
            from <= i < j && #[trigger] occurs_at(name, s, i) && #[trigger] occurs_at(name, s, j) ==> i + s.len()
                <= j) ==> ((exists|i: int|
            from <= i && #[trigger] occurs_at(name, s, i) && !digit_at(name, i + s.len())) ==> whole_match(
            name,
            s,
            from,
        )),
    decreases name.len() + 1 - from,
{
    first_match(name, s, from);
    match next_match(name, s, from) {
        None => {
            if exists|i: int| from <= i && #[trigger] occurs_at(name, s, i) && !digit_at(name, i + s.len()) {
                let i = choose|i: int|
                    from <= i && #[trigger] occurs_at(name, s, i) && !digit_at(name, i + s.len());
                assert(i <= name.len());
            }
        },
        Some(i) => {
            if digit_at(name, i + s.len()) {
                let next = i + s.len();
                whole_tokens_have_no_digit_behind(name, s, next);
                if forall|i: int, j: int|
                    from <= i < j && #[trigger] occurs_at(name, s, i) && #[trigger] occurs_at(name, s, j) ==> i
                        + s.len() <= j {
                    if exists|g: int| from <= g && #[trigger] occurs_at(name, s, g) && !digit_at(name, g + s.len()) {
                        let g = choose|g: int|
                            from <= g && #[trigger] occurs_at(name, s, g) && !digit_at(name, g + s.len());
                        assert(g != i);
                        assert(g > i);
                        assert(g >= next);
                    }
                }
            }
        },
    }
}

/// The tiles of a sidecar are its members, of those with one name the last; each is read from its own
/// value.
pub proof fn each_name_is_one_tile(members: Seq<Member>, n: nat, i: int)
    requires
        n <= members.len(),
        0 <= i < n,
    ensures
        (forall|j: int| i < j < members.len() ==> (#[trigger] members[j]).key@ != members[i].key@)
            ==> tiles_among(members, n).contains(tile_of(members[i].key@, members[i].value)),
        tiles_among(members, n).len() <= n,
    decreases n,
{
    let all = members.len();
    crate::gpu::material_laws::the_last_member_of_a_key_counts(members, members[i].key@, all, i);
    let t = tile_of(members[i].key@, members[i].value);
    let rest = tiles_among(members, (n - 1) as nat);
    if i < n - 1 {
        each_name_is_one_tile(members, (n - 1) as nat, i);
        if rest.contains(t) {
            let q = choose|q: int| 0 <= q < rest.len() && rest[q] == t;
            assert(tiles_among(members, n)[q] == t);
        }
    } else {
        if n > 1 {
            each_name_is_one_tile(members, (n - 1) as nat, 0);
        }
        if forall|j: int| i < j < members.len() ==> (#[trigger] members[j]).key@ != members[i].key@ {
            assert(tiles_among(members, n)[rest.len() as int] == t);
        }
    }
}

/// A layer is read from its own members: its number, its name and its repetition.
pub proof fn layers_are_read_from_their_members(l: Json, idx: crate::json::Number, name: String, rep: crate::json::Number)
    requires
        l.field("idx"@) == Some(Json::Num(idx)),
        l.field("name"@) == Some(Json::Str(name)),
        l.field("rep"@) == Some(Json::Num(rep)),
    ensures
        idx.whole is Some ==> layer_of(l).idx == idx.whole->0,
        idx.whole is None ==> layer_of(l).idx >= 12,
        layer_of(l).file == "layer_"@ + name@ + ".png"@,
        layer_of(l).rep == rep.value,
{
}

/// A tile is read from its own members: as many control maps and layers as are written, in their
/// order, each from its own entry.
pub proof fn tiles_are_read_from_their_members(name: Seq<char>, t: Json, maps: Vec<Json>, layers: Vec<Json>)
    requires
        t.field("ctrl_maps"@) == Some(Json::Arr(maps)),
        t.field("layers"@) == Some(Json::Arr(layers)),
    ensures
        tile_of(name, t).name == name,
        tile_of(name, t).ctrl_maps.len() == maps@.len(),
        forall|i: int|
            0 <= i < maps@.len() ==> (#[trigger] tile_of(name, t).ctrl_maps[i]) == (match maps@[i] {
                Json::Str(s) => Some(s@),
                _ => None,
            }),
        tile_of(name, t).layers is Some,
        tile_of(name, t).layers->0.len() == layers@.len(),
        forall|i: int| 0 <= i < layers@.len() ==> (#[trigger] tile_of(name, t).layers->0[i]) == layer_of(layers@[i]),
{
}

} // verus!
