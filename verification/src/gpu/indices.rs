//! Every index that a material record, a vertex-paint entry or the splat table holds points into the
//! list that it is an index of.
use crate::gpu::blob::{BlobModel, PackIn};
use crate::gpu::materials::{
    after_emissive, after_heights, after_layers, detail_albedo_path, detail_normal_path,
    emissive_path, empty_table, entered, entered_all, heights_path, layer_path, paint_layers, paints_layers,
    record_at, record_of, GpuMaterial, MaterialIn, PackRules, PartStretch, TableModel, VpGpu,
    DETAIL_FLAG_ALBEDO, DETAIL_FLAG_NORMAL, NO_ALBEDO, NO_EMISSIVE, NO_NORMAL,
};
use crate::gpu::paths::{path_of, position, position_is_first, with_path};
use crate::gpu::terrain::{
    ctrl_count, empty_splat, filled, layers_done, scan_layers, slice_count, slice_of, slice_order, splat_of,
    tagged, tagged_all, tagged_parts, texture_count, texture_count_covers, tile_names, with_ctrl, with_layers,
    with_tile, with_tiles, LayerIn, SplatModel, TerrainMesh, TileIn,
};
use crate::text::sorted_places_bound;
use vstd::prelude::*;

verus! {

/// Whether an index points into a list of the given length or says that there is nothing.
pub open spec fn points_into(i: u32, none: u32, len: nat) -> bool {
    i == none || i < len
}

/// Whether the indices of a record point into the albedo list, the normal list and the list of
/// vertex-paint entries. An index of a detail map counts where its flag is set and is zero elsewhere;
/// the slot is that of a terrain slice or of a vertex-paint entry, as the flags say.
pub open spec fn record_points_inside(r: GpuMaterial, albedo: nat, normal: nat, vp: nat) -> bool {
    let both = DETAIL_FLAG_ALBEDO + DETAIL_FLAG_NORMAL;
    &&& points_into(r.albedo_index, NO_ALBEDO, albedo)
    &&& points_into(r.normal_index, NO_NORMAL, normal)
    &&& points_into(r.emissive_index, NO_EMISSIVE, albedo)
    &&& points_into(r.detail_albedo_index, 0, albedo)
    &&& points_into(r.detail_normal_index, 0, normal)
    &&& r.detail_flags == DETAIL_FLAG_ALBEDO || r.detail_flags == both ==> r.detail_albedo_index < albedo
    &&& r.detail_flags == DETAIL_FLAG_NORMAL || r.detail_flags == both ==> r.detail_normal_index < normal
    &&& r.detail_flags <= both
    &&& r.flags.vp && !r.flags.terrain ==> r.slot < vp
    &&& r.flags.terrain ==> r.slot < 16
}

/// Whether the indices of a vertex-paint entry point into the albedo list: each layer has a texture,
/// the mask may have none.
pub open spec fn entry_points_inside(e: VpGpu, albedo: nat) -> bool {
    &&& e.layer0 < albedo
    &&& e.layer1 < albedo
    &&& e.layer2 < albedo
    &&& points_into(e.heights, NO_ALBEDO, albedo)
}

/// Whether every index of a list is below a length.
pub open spec fn all_below(s: Seq<u32>, len: nat) -> bool {
    forall|i: int| 0 <= i < s.len() ==> #[trigger] s[i] < len
}

/// Whether every index of a list is below a length or zero.
pub open spec fn all_zero_or_below(s: Seq<u32>, len: nat) -> bool {
    forall|i: int| 0 <= i < s.len() ==> points_into(#[trigger] s[i], 0, len)
}

/// Whether every vertex-paint entry points into the albedo list.
pub open spec fn entries_point_inside(vp: Seq<VpGpu>, albedo: nat) -> bool {
    forall|i: int| 0 <= i < vp.len() ==> entry_points_inside(#[trigger] vp[i], albedo)
}

/// Whether every record points into lists of the given lengths.
pub open spec fn records_point_inside(recs: Seq<GpuMaterial>, albedo: nat, normal: nat, vp: nat) -> bool {
    forall|i: int| 0 <= i < recs.len() ==> record_points_inside(#[trigger] recs[i], albedo, normal, vp)
}

/// Whether every index in the staging data of a map points into its list. Layers and control maps
/// that no tile names have the index zero.
pub open spec fn blob_points_inside(b: BlobModel) -> bool {
    &&& records_point_inside(b.materials, b.albedo.len(), b.normal.len(), b.vp.len())
    &&& entries_point_inside(b.vp, b.albedo.len())
    &&& all_below(b.linear, b.albedo.len())
    &&& all_zero_or_below(b.layer_albedo, b.albedo.len())
    &&& all_zero_or_below(b.ctrl_idx, b.albedo.len())
}

proof fn path_points_inside(s: Seq<Seq<char>>, p: Option<Seq<char>>)
    ensures
        s.len() <= with_path(s, p).len() <= s.len() + 1,
        p matches Some(t) ==> 0 <= position(s, t) < with_path(s, p).len(),
{
    if let Some(t) = p {
        position_is_first(s, t);
    }
}

/// Whether what a table holds points into its lists.
pub open spec fn table_points_inside(t: TableModel) -> bool {
    entries_point_inside(t.vp, t.albedo.len()) && all_below(t.linear, t.albedo.len())
}

/// Entering a material lets no list shrink, and its record and its vertex-paint entry point inside.
proof fn entering_points_inside(st: TableModel, m: MaterialIn, stretched: bool, rules: PackRules)
    requires
        table_points_inside(st),
        st.albedo.len() + 7 < 0xffff_ffff,
        st.normal.len() + 2 < 0xffff_ffff,
        st.vp.len() < 0xffff_ffff,
    ensures
        table_points_inside(entered(st, m)),
        st.albedo.len() <= entered(st, m).albedo.len() <= st.albedo.len() + 7,
        st.normal.len() <= entered(st, m).normal.len() <= st.normal.len() + 2,
        st.vp.len() <= entered(st, m).vp.len() <= st.vp.len() + 1,
        record_points_inside(
            record_of(st, m, stretched, rules),
            entered(st, m).albedo.len(),
            entered(st, m).normal.len(),
            entered(st, m).vp.len(),
        ),
{
    reveal_with_fuel(after_layers, 4);
    path_points_inside(st.albedo, path_of(m.albedo));
    if let Some(l) = paint_layers(m.vp) {
        path_points_inside(after_layers(st, m, 0), layer_path(l, 0));
        path_points_inside(after_layers(st, m, 1), layer_path(l, 1));
        path_points_inside(after_layers(st, m, 2), layer_path(l, 2));
    }
    path_points_inside(after_layers(st, m, 3), heights_path(m));
    path_points_inside(after_heights(st, m), emissive_path(m));
    path_points_inside(after_emissive(st, m), detail_albedo_path(m));
    path_points_inside(st.normal, path_of(m.normal));
    path_points_inside(with_path(st.normal, path_of(m.normal)), detail_normal_path(m));
    let t = entered(st, m);
    assert forall|i: int| 0 <= i < t.vp.len() implies entry_points_inside(
        #[trigger] t.vp[i],
        t.albedo.len(),
    ) by {
        if i < st.vp.len() {
            assert(t.vp[i] == st.vp[i]);
        }
    }
    assert forall|i: int| 0 <= i < t.linear.len() implies #[trigger] t.linear[i] < t.albedo.len() by {
        if i < st.linear.len() {
            assert(t.linear[i] == st.linear[i]);
        }
    }
}

proof fn entered_all_points_inside(mats: Seq<MaterialIn>, k: nat)
    requires
        k <= mats.len(),
        7 * k < 0xffff_ffff,
    ensures
        table_points_inside(entered_all(empty_table(), mats, k)),
        entered_all(empty_table(), mats, k).albedo.len() <= 7 * k,
        entered_all(empty_table(), mats, k).normal.len() <= 2 * k,
        entered_all(empty_table(), mats, k).vp.len() <= k,
    decreases k,
{
    if k > 0 {
        entered_all_points_inside(mats, (k - 1) as nat);
        let rules = arbitrary();
        entering_points_inside(
            entered_all(empty_table(), mats, (k - 1) as nat),
            mats[k - 1],
            false,
            rules,
        );
    }
}

proof fn entered_all_grows(mats: Seq<MaterialIn>, j: nat, k: nat)
    requires
        j <= k <= mats.len(),
        7 * k < 0xffff_ffff,
    ensures
        entered_all(empty_table(), mats, j).albedo.len() <= entered_all(
            empty_table(),
            mats,
            k,
        ).albedo.len(),
        entered_all(empty_table(), mats, j).normal.len() <= entered_all(
            empty_table(),
            mats,
            k,
        ).normal.len(),
        entered_all(empty_table(), mats, j).vp.len() <= entered_all(empty_table(), mats, k).vp.len(),
    decreases k,
{
    if j < k {
        entered_all_grows(mats, j, (k - 1) as nat);
        entered_all_points_inside(mats, (k - 1) as nat);
        let rules = arbitrary();
        entering_points_inside(
            entered_all(empty_table(), mats, (k - 1) as nat),
            mats[k - 1],
            false,
            rules,
        );
    }
}

/// The records of a material table point into what the table holds, and so does all that it holds.
pub proof fn material_indices_point_inside(mats: Seq<MaterialIn>, parts: Seq<PartStretch>, rules: PackRules)
    requires
        7 * mats.len() < 0xffff_ffff,
    ensures
        table_points_inside(entered_all(empty_table(), mats, mats.len())),
        forall|i: int|
            0 <= i < mats.len() ==> record_points_inside(
                #[trigger] record_at(mats, parts, rules, i),
                entered_all(empty_table(), mats, mats.len()).albedo.len(),
                entered_all(empty_table(), mats, mats.len()).normal.len(),
                entered_all(empty_table(), mats, mats.len()).vp.len(),
            ),
{
    entered_all_points_inside(mats, mats.len());
    let t = entered_all(empty_table(), mats, mats.len());
    assert forall|i: int| 0 <= i < mats.len() implies record_points_inside(
        #[trigger] record_at(mats, parts, rules, i),
        t.albedo.len(),
        t.normal.len(),
        t.vp.len(),
    ) by {
        entered_all_points_inside(mats, i as nat);
        entering_points_inside(
            entered_all(empty_table(), mats, i as nat),
            mats[i],
            crate::gpu::materials::is_stretched(parts, mats[i].id),
            rules,
        );
        entered_all_grows(mats, (i + 1) as nat, mats.len());
    }
}

/// Whether what the splat table holds points into its albedo list; it has twelve layers, and three
/// control maps for each of sixteen slices.
pub open spec fn splat_points_inside(m: SplatModel) -> bool {
    &&& m.layer_albedo.len() == 12
    &&& m.ctrl_idx.len() == 48
    &&& all_below(m.linear, m.albedo.len())
    &&& all_zero_or_below(m.layer_albedo, m.albedo.len())
    &&& all_zero_or_below(m.ctrl_idx, m.albedo.len())
}

proof fn ctrl_points_inside(m: SplatModel, maps: Seq<Option<String>>, si: int, k: nat)
    requires
        splat_points_inside(m),
        0 <= si < 16,
        k <= 3,
        k <= maps.len(),
        m.albedo.len() + k < 0xffff_ffff,
    ensures
        splat_points_inside(with_ctrl(m, maps, si, k)),
        m.albedo.len() <= with_ctrl(m, maps, si, k).albedo.len() <= m.albedo.len() + k,
    decreases k,
{
    if k > 0 {
        ctrl_points_inside(m, maps, si, (k - 1) as nat);
        let p = with_ctrl(m, maps, si, (k - 1) as nat);
        let q = with_ctrl(m, maps, si, k);
        if let Some(c) = maps[k - 1] {
            path_points_inside(p.albedo, Some(c@));
            assert forall|i: int| 0 <= i < q.linear.len() implies #[trigger] q.linear[i]
                < q.albedo.len() by {
                if i < p.linear.len() {
                    assert(q.linear[i] == p.linear[i]);
                }
            }
        }
    }
}

proof fn scan_points_inside(m: SplatModel, layers: Seq<LayerIn>, k: nat)
    requires
        splat_points_inside(m),
        k <= layers.len(),
        m.albedo.len() + k < 0xffff_ffff,
    ensures
        splat_points_inside(scan_layers(m, layers, k).m),
        m.albedo.len() <= scan_layers(m, layers, k).m.albedo.len() <= m.albedo.len() + k,
        scan_layers(m, layers, k).first matches Some(f) ==> f < scan_layers(m, layers, k).m.albedo.len(),
        forall|i: int|
            0 <= i < scan_layers(m, layers, k).missing.len() ==> 0 <= #[trigger] scan_layers(
                m,
                layers,
                k,
            ).missing[i] < 12,
    decreases k,
{
    if k > 0 {
        scan_points_inside(m, layers, (k - 1) as nat);
        let p = scan_layers(m, layers, (k - 1) as nat);
        let l = layers[k - 1];
        if l.idx < 12 && l.present {
            path_points_inside(p.m.albedo, Some(l.path@));
        }
    }
}

proof fn filled_points_inside(s: Seq<u32>, places: Seq<int>, v: u32, k: nat, len: nat)
    requires
        all_zero_or_below(s, len),
        points_into(v, 0, len),
        k <= places.len(),
        forall|i: int| 0 <= i < places.len() ==> 0 <= #[trigger] places[i] < s.len(),
    ensures
        all_zero_or_below(filled(s, places, v, k), len),
        filled(s, places, v, k).len() == s.len(),
    decreases k,
{
    if k > 0 {
        filled_points_inside(s, places, v, (k - 1) as nat, len);
    }
}

proof fn tile_points_inside(m: SplatModel, done: bool, t: TileIn, si: int)
    requires
        splat_points_inside(m),
        0 <= si < 16,
        m.albedo.len() + 3 + (match t.layers {
            Some(l) => l@.len(),
            None => 0,
        }) < 0xffff_ffff,
    ensures
        splat_points_inside(with_tile(m, done, t, si)),
        m.albedo.len() <= with_tile(m, done, t, si).albedo.len() <= m.albedo.len() + 3 + (match t.layers {
            Some(l) => l@.len(),
            None => 0,
        }),
{
    ctrl_points_inside(m, t.ctrl_maps@, si, ctrl_count(t));
    let c = with_ctrl(m, t.ctrl_maps@, si, ctrl_count(t));
    if let Some(l) = t.layers {
        if !done {
            scan_points_inside(c, l@, l@.len());
            let s = scan_layers(c, l@, l@.len());
            let fallback = match s.first {
                Some(f) => f,
                None => 0,
            };
            filled_points_inside(
                s.m.layer_albedo,
                s.missing,
                fallback,
                s.missing.len(),
                s.m.albedo.len(),
            );
        }
    }
}

proof fn tiles_point_inside(m: SplatModel, tiles: Seq<TileIn>, order: Seq<int>, k: nat)
    requires
        splat_points_inside(m),
        k <= 16,
        k <= order.len(),
        forall|i: int| 0 <= i < order.len() ==> 0 <= #[trigger] order[i] < tiles.len(),
        m.albedo.len() + 16 * texture_count(tiles, tiles.len()) < 0xffff_ffff,
    ensures
        splat_points_inside(with_tiles(m, tiles, order, k)),
        m.albedo.len() <= with_tiles(m, tiles, order, k).albedo.len() <= m.albedo.len() + k * texture_count(
            tiles,
            tiles.len(),
        ),
    decreases k,
{
    let each = texture_count(tiles, tiles.len());
    if k > 0 {
        tiles_point_inside(m, tiles, order, (k - 1) as nat);
        assert((k - 1) * each + each == k * each && k * each <= 16 * each) by (nonlinear_arith)
            requires
                k <= 16,
                each >= 0,
        ;
        texture_count_covers(tiles, tiles.len(), order[k - 1]);
        tile_points_inside(
            with_tiles(m, tiles, order, (k - 1) as nat),
            layers_done(tiles, order, (k - 1) as nat),
            tiles[order[k - 1]],
            k - 1,
        );
    } else {
        assert(0 * each == 0) by (nonlinear_arith);
    }
}

/// The splat table of a sidecar points into its albedo list, which holds all that was in it before.
pub proof fn splat_indices_point_inside(albedo: Seq<Seq<char>>, linear: Seq<u32>, tiles: Seq<TileIn>)
    requires
        all_below(linear, albedo.len()),
        albedo.len() + 16 * texture_count(tiles, tiles.len()) < 0xffff_ffff,
    ensures
        splat_points_inside(splat_of(albedo, linear, tiles)),
        albedo.len() <= splat_of(albedo, linear, tiles).albedo.len() <= albedo.len() + 16 * texture_count(
            tiles,
            tiles.len(),
        ),
{
    sorted_places_bound(tile_names(tiles), tiles.len());
    tiles_point_inside(empty_splat(albedo, linear), tiles, slice_order(tiles), slice_count(tiles));
    let each = texture_count(tiles, tiles.len());
    let n = slice_count(tiles);
    assert(n * each <= 16 * each) by (nonlinear_arith)
        requires
            n <= 16,
            each >= 0,
    ;
}

proof fn slice_is_one_of_the_names(name: Seq<char>, names: Seq<Seq<char>>, from: int)
    requires
        0 <= from,
    ensures
        slice_of(name, names, from) matches Some(s) ==> 0 <= s < names.len(),
    decreases names.len() - from,
{
    if from < names.len() {
        slice_is_one_of_the_names(name, names, from + 1);
    }
}

proof fn tagged_parts_point_inside(
    recs: Seq<GpuMaterial>,
    mats: Seq<u32>,
    slice: u32,
    k: nat,
    albedo: nat,
    normal: nat,
    vp: nat,
)
    requires
        records_point_inside(recs, albedo, normal, vp),
        slice < 16,
        k <= mats.len(),
    ensures
        records_point_inside(tagged_parts(recs, mats, slice, k), albedo, normal, vp),
    decreases k,
{
    if k > 0 {
        tagged_parts_point_inside(recs, mats, slice, (k - 1) as nat, albedo, normal, vp);
        let p = tagged_parts(recs, mats, slice, (k - 1) as nat);
        let m = mats[k - 1] as int;
        if m < p.len() {
            assert(record_points_inside(p[m], albedo, normal, vp));
            assert(record_points_inside(tagged(p[m], slice), albedo, normal, vp));
        }
    }
}

proof fn tagged_all_point_inside(
    recs: Seq<GpuMaterial>,
    meshes: Seq<TerrainMesh>,
    names: Seq<Seq<char>>,
    k: nat,
    albedo: nat,
    normal: nat,
    vp: nat,
)
    requires
        records_point_inside(recs, albedo, normal, vp),
        names.len() <= 16,
        k <= meshes.len(),
    ensures
        records_point_inside(tagged_all(recs, meshes, names, k), albedo, normal, vp),
    decreases k,
{
    if k > 0 {
        tagged_all_point_inside(recs, meshes, names, (k - 1) as nat, albedo, normal, vp);
        let m = meshes[k - 1];
        slice_is_one_of_the_names(m.name@, names, 0);
        if let Some(s) = slice_of(m.name@, names, 0) {
            tagged_parts_point_inside(
                tagged_all(recs, meshes, names, (k - 1) as nat),
                m.materials@,
                s as u32,
                m.materials@.len(),
                albedo,
                normal,
                vp,
            );
        }
    }
}

/// Every texture index in the staging data of a map lies inside the list that it is an index of, or
/// is the value that says that there is no texture.
pub proof fn every_index_points_inside(pack: PackIn)
    requires
        pack.wf(),
    ensures
        blob_points_inside(pack.blob()),
{
    material_indices_point_inside(pack.materials@, pack.parts@, pack.rules);
    entered_all_points_inside(pack.materials@, pack.materials@.len());
    let t = pack.table();
    let s = pack.splat();
    let recs = Seq::new(
        pack.materials@.len(),
        |i: int| record_at(pack.materials@, pack.parts@, pack.rules, i),
    );
    assert(records_point_inside(recs, t.albedo.len(), t.normal.len(), t.vp.len()));
    if let Some(tiles) = pack.tiles {
        splat_indices_point_inside(t.albedo, t.linear, tiles@);
        tagged_all_point_inside(
            recs,
            pack.terrain_meshes@,
            pack.slice_names(),
            pack.terrain_meshes@.len(),
            t.albedo.len(),
            t.normal.len(),
            t.vp.len(),
        );
    }
    assert(t.albedo.len() <= s.albedo.len());
    let before = pack.records();
    assert(records_point_inside(before, s.albedo.len(), t.normal.len(), t.vp.len())) by {
        assert forall|i: int| 0 <= i < before.len() implies record_points_inside(
            #[trigger] before[i],
            s.albedo.len(),
            t.normal.len(),
            t.vp.len(),
        ) by {
            assert(record_points_inside(before[i], t.albedo.len(), t.normal.len(), t.vp.len()));
        }
    }
    if let Some(g) = pack.grass {
        path_points_inside(s.albedo, Some(g.albedo@));
        let b = pack.blob();
        assert forall|i: int| 0 <= i < b.materials.len() implies record_points_inside(
            #[trigger] b.materials[i],
            b.albedo.len(),
            b.normal.len(),
            b.vp.len(),
        ) by {
            if i < before.len() {
                assert(b.materials[i] == before[i]);
            }
        }
    }
}

} // verus!
