//! What the material table says of the materials that it was made from.
use crate::f32bits::{float, F32};
use crate::gpu::materials::{
    after_emissive, after_heights, after_layers, class_of, detail_albedo_path, detail_normal_path,
    emissive_path, empty_table, entered, entered_all, flag, heights_path, is_stretched, layer_path,
    paint_entry, paint_layers, paints_layers, record_at, record_of, softcutout, with_index,
    GpuMaterial, MatClass, MaterialIn, PackRules, PartStretch, TableModel, VpGpu,
};
use crate::gpu::paths::{index_or, path_of, position, position_is_first, with_path};
use crate::json::{member_at, number_or, Json, Member};
use vstd::prelude::*;

verus! {

/// Whether a list begins with another.
pub open spec fn begins(t: Seq<Seq<char>>, s: Seq<Seq<char>>) -> bool {
    s.len() <= t.len() && forall|i: int| 0 <= i < s.len() ==> #[trigger] t[i] == s[i]
}

/// Whether an optional file is named.
pub open spec fn named(p: Option<String>) -> bool {
    p is Some && p->0@.len() > 0
}

proof fn path_is_found(s: Seq<Seq<char>>, p: Option<Seq<char>>, none: u32)
    requires
        s.len() < 0xffff_ffff,
    ensures
        begins(with_path(s, p), s),
        with_path(s, p).len() <= s.len() + 1,
        p is Some ==> index_or(s, p, none) < with_path(s, p).len() && with_path(s, p)[index_or(
            s,
            p,
            none,
        ) as int] == p->0,
        p is None ==> index_or(s, p, none) == none,
{
    if let Some(t) = p {
        position_is_first(s, t);
    }
}

/// The path of layer `i` of a vertex-paint block.
pub open spec fn painted_path(vp: Json, i: int) -> Option<Seq<char>> {
    match vp.field("layers"@) {
        Some(Json::Arr(a)) => match a@[i].field("albedo"@) {
            Some(Json::Str(s)) => Some(s@),
            _ => None,
        },
        _ => None,
    }
}

/// Whether a vertex-paint block has just three layers, each with a texture.
pub open spec fn has_three_layers(vp: Option<Json>) -> bool {
    &&& vp is Some
    &&& vp->0.field("layers"@) matches Some(Json::Arr(a))
    &&& a@.len() == 3
    &&& painted_path(vp->0, 0) is Some && painted_path(vp->0, 0)->0.len() > 0
    &&& painted_path(vp->0, 1) is Some && painted_path(vp->0, 1)->0.len() > 0
    &&& painted_path(vp->0, 2) is Some && painted_path(vp->0, 2)->0.len() > 0
}

/// A material blends painted layers exactly where its vertex-paint block has three layers with a
/// texture each.
pub proof fn three_layers_are_painted(m: MaterialIn)
    ensures
        paints_layers(m) <==> has_three_layers(m.vp),
{
}

/// Whether the indices of a record and of its vertex-paint entry stand for the textures of the
/// material in the lists of a table.
pub open spec fn stands_for_its_textures(r: GpuMaterial, m: MaterialIn, t: TableModel) -> bool {
    &&& named(m.albedo) ==> r.albedo_index < t.albedo.len() && t.albedo[r.albedo_index as int] == m.albedo->0@
    &&& !named(m.albedo) ==> r.albedo_index == 0xffff_ffff
    &&& named(m.normal) ==> r.normal_index < t.normal.len() && t.normal[r.normal_index as int] == m.normal->0@
    &&& !named(m.normal) ==> r.normal_index == 0xffff_ffff
    &&& m.emissive is Some && named(m.emissive->0.texture) ==> r.emissive_index < t.albedo.len()
        && t.albedo[r.emissive_index as int] == m.emissive->0.texture->0@
    &&& !(m.emissive is Some && named(m.emissive->0.texture)) ==> r.emissive_index == 0xffff_ffff
    &&& m.detail is Some && named(m.detail->0.albedo) ==> r.detail_albedo_index < t.albedo.len()
        && t.albedo[r.detail_albedo_index as int] == m.detail->0.albedo->0@
    &&& m.detail is Some && named(m.detail->0.normal) ==> r.detail_normal_index < t.normal.len()
        && t.normal[r.detail_normal_index as int] == m.detail->0.normal->0@
    &&& has_three_layers(m.vp) ==> r.slot < t.vp.len() && entry_stands_for_its_layers(t.vp[r.slot as int], m, t)
}

/// Whether the indices of a vertex-paint entry stand for the layers of the material and their mask.
pub open spec fn entry_stands_for_its_layers(e: VpGpu, m: MaterialIn, t: TableModel) -> bool {
    let vp = m.vp->0;
    &&& e.layer0 < t.albedo.len() && t.albedo[e.layer0 as int] == painted_path(vp, 0)->0
    &&& e.layer1 < t.albedo.len() && t.albedo[e.layer1 as int] == painted_path(vp, 1)->0
    &&& e.layer2 < t.albedo.len() && t.albedo[e.layer2 as int] == painted_path(vp, 2)->0
    &&& vp.field("heights"@) matches Some(Json::Str(h)) ==> h@.len() > 0 ==> e.heights < t.albedo.len()
        && t.albedo[e.heights as int] == h@ && t.linear.contains(e.heights)
}

/// Whether a table goes on from another: what was in it is still there, at its place.
spec fn goes_on(t: TableModel, s: TableModel) -> bool {
    &&& begins(t.albedo, s.albedo)
    &&& begins(t.normal, s.normal)
    &&& s.vp.len() <= t.vp.len()
    &&& forall|i: int| 0 <= i < s.vp.len() ==> #[trigger] t.vp[i] == s.vp[i]
    &&& forall|x: u32| s.linear.contains(x) ==> #[trigger] t.linear.contains(x)
}

proof fn index_is_in(s: Seq<u32>, x: u32)
    ensures
        with_index(s, x).contains(x),
        forall|y: u32| s.contains(y) ==> #[trigger] with_index(s, x).contains(y),
{
    if !s.contains(x) {
        assert(with_index(s, x)[s.len() as int] == x);
        assert forall|y: u32| s.contains(y) implies #[trigger] with_index(s, x).contains(y) by {
            let i = choose|i: int| 0 <= i < s.len() && s[i] == y;
            assert(with_index(s, x)[i] == y);
        }
    }
}

proof fn entering_one(st: TableModel, m: MaterialIn, stretched: bool, rules: PackRules)
    requires
        st.albedo.len() + 7 < 0xffff_ffff,
        st.normal.len() + 2 < 0xffff_ffff,
        st.vp.len() < 0xffff_ffff,
    ensures
        goes_on(entered(st, m), st),
        entered(st, m).albedo.len() <= st.albedo.len() + 7,
        entered(st, m).normal.len() <= st.normal.len() + 2,
        entered(st, m).vp.len() <= st.vp.len() + 1,
        stands_for_its_textures(record_of(st, m, stretched, rules), m, entered(st, m)),
{
    let t = entered(st, m);
    let r = record_of(st, m, stretched, rules);
    three_layers_are_painted(m);
    path_is_found(st.albedo, path_of(m.albedo), 0xffff_ffff);
    let a0 = after_layers(st, m, 0);
    assert(a0 == with_path(st.albedo, path_of(m.albedo)));
    let a1 = after_layers(st, m, 1);
    let a2 = after_layers(st, m, 2);
    let a3 = after_layers(st, m, 3);
    if let Some(l) = paint_layers(m.vp) {
        path_is_found(a0, layer_path(l, 0), 0xffff_ffff);
        path_is_found(a1, layer_path(l, 1), 0xffff_ffff);
        path_is_found(a2, layer_path(l, 2), 0xffff_ffff);
        assert(a1 == with_path(a0, layer_path(l, 0)));
        assert(a2 == with_path(a1, layer_path(l, 1)));
        assert(a3 == with_path(a2, layer_path(l, 2)));
    } else {
        assert(a1 == a0 && a2 == a0 && a3 == a0);
    }
    let a4 = after_heights(st, m);
    path_is_found(a3, heights_path(m), 0xffff_ffff);
    let a5 = after_emissive(st, m);
    path_is_found(a4, emissive_path(m), 0xffff_ffff);
    path_is_found(a5, detail_albedo_path(m), 0);
    let n1 = with_path(st.normal, path_of(m.normal));
    path_is_found(st.normal, path_of(m.normal), 0xffff_ffff);
    path_is_found(n1, detail_normal_path(m), 0);
    if let Some(h) = heights_path(m) {
        index_is_in(st.linear, position(a3, h) as u32);
    }
    assert(begins(t.albedo, a5) && begins(a5, a4) && begins(a4, a3) && begins(a3, a2) && begins(a2, a1)
        && begins(a1, a0) && begins(a0, st.albedo));
    if has_three_layers(m.vp) {
        let e = paint_entry(st, m);
        assert(t.vp[r.slot as int] == e);
        let vp = m.vp->0;
        let l = paint_layers(m.vp)->0;
        assert(layer_path(l, 0) == painted_path(vp, 0));
        assert(layer_path(l, 1) == painted_path(vp, 1));
        assert(layer_path(l, 2) == painted_path(vp, 2));
        assert(t.albedo[e.layer0 as int] == a1[e.layer0 as int]);
        assert(entry_stands_for_its_layers(e, m, t));
    }
    assert(path_of(m.albedo) is Some <==> named(m.albedo));
    assert(path_of(m.normal) is Some <==> named(m.normal));
}

proof fn still_stands(r: GpuMaterial, m: MaterialIn, s: TableModel, t: TableModel)
    requires
        goes_on(t, s),
        stands_for_its_textures(r, m, s),
    ensures
        stands_for_its_textures(r, m, t),
{
    if has_three_layers(m.vp) {
        assert(t.vp[r.slot as int] == s.vp[r.slot as int]);
        assert(entry_stands_for_its_layers(s.vp[r.slot as int], m, s));
    }
}

proof fn tables_grow(mats: Seq<MaterialIn>, j: nat, k: nat)
    requires
        j <= k <= mats.len(),
        7 * k < 0xffff_ffff,
    ensures
        entered_all(empty_table(), mats, k).albedo.len() <= 7 * k,
        entered_all(empty_table(), mats, k).normal.len() <= 2 * k,
        entered_all(empty_table(), mats, k).vp.len() <= k,
        goes_on(entered_all(empty_table(), mats, k), entered_all(empty_table(), mats, j)),
    decreases k,
{
    if k > 0 {
        let p = (k - 1) as nat;
        let rules = PackRules { green_flip: false, fade_near: float(0), fade_far: float(0) };
        if j < k {
            tables_grow(mats, j, p);
        } else {
            tables_grow(mats, p, p);
        }
        entering_one(entered_all(empty_table(), mats, p), mats[p as int], false, rules);
    }
}

/// Every index of a material's record stands for the material's own texture in the finished table,
/// and so do those of its vertex-paint entry; where the material names no texture, the index says so.
pub proof fn records_stand_for_their_textures(
    mats: Seq<MaterialIn>,
    parts: Seq<PartStretch>,
    rules: PackRules,
    i: int,
)
    requires
        7 * mats.len() < 0xffff_ffff,
        0 <= i < mats.len(),
    ensures
        stands_for_its_textures(
            record_at(mats, parts, rules, i),
            mats[i],
            entered_all(empty_table(), mats, mats.len()),
        ),
{
    let st = entered_all(empty_table(), mats, i as nat);
    tables_grow(mats, i as nat, i as nat);
    entering_one(st, mats[i], is_stretched(parts, mats[i].id), rules);
    tables_grow(mats, (i + 1) as nat, mats.len());
    still_stands(
        record_at(mats, parts, rules, i),
        mats[i],
        entered(st, mats[i]),
        entered_all(empty_table(), mats, mats.len()),
    );
}

/// What is decided by the role, the alpha mode and the textures of a material, flag by flag.
pub proof fn materials_are_treated_by_role_and_textures(m: MaterialIn, stretched: bool)
    ensures
        ({
            let c = class_of(m, stretched);
            let decal = m.role@ == "decal"@;
            let water = m.role@ == "water"@;
            &&& c.decal == decal
            &&& c.water == water
            &&& m.role@ == "glass"@ || decal || water && named(m.albedo) ==> c.blend
            &&& m.alpha_mode@ == "BLEND"@ && !water ==> c.blend
            &&& c.blend ==> m.role@ == "glass"@ || decal || water && named(m.albedo) || m.alpha_mode@ == "BLEND"@
            &&& water && !named(m.albedo) && !decal && m.role@ != "glass"@ ==> !c.blend
            &&& c.cutout ==> m.role@ == "cutout"@ || m.alpha_mode@ == "MASK"@
            &&& (m.role@ == "cutout"@ || m.alpha_mode@ == "MASK"@) && m.vp is None ==> c.cutout
            &&& has_three_layers(m.vp) && !decal ==> !c.cutout
            &&& c.softcutout ==> decal && m.vp is Some && !c.cutout
            &&& c.vp == has_three_layers(m.vp)
            &&& c.detail == (m.detail is Some && (named(m.detail->0.albedo) || named(m.detail->0.normal)))
            &&& c.rfa == (m.roughness_from_albedo_alpha && m.role@ == "opaque"@)
            &&& c.puddle_luma == (water && named(m.albedo) && m.alpha_is_constant)
            &&& c.water_matte == (water && named(m.albedo) && stretched)
            &&& !c.terrain
        }),
{
    three_layers_are_painted(m);
}

/// A decal feathers exactly where its vertex paint gives three numbers for it, which its record then
/// has, in their order.
pub proof fn decals_feather_by_three_numbers(m: MaterialIn, stretched: bool, a: Vec<Json>)
    requires
        m.vp is Some,
        m.vp->0.field("softCutout"@) == Some(Json::Arr(a)),
    ensures
        a@.len() >= 3 && a@[0] is Num && a@[1] is Num && a@[2] is Num ==> {
            &&& softcutout(m.vp) is Some
            &&& softcutout(m.vp)->0.x == a@[0]->Num_0.value
            &&& softcutout(m.vp)->0.y == a@[1]->Num_0.value
            &&& softcutout(m.vp)->0.z == a@[2]->Num_0.value
            &&& class_of(m, stretched).softcutout == (m.role@ == "decal"@)
        },
        !(a@.len() >= 3 && a@[0] is Num && a@[1] is Num && a@[2] is Num) ==> softcutout(m.vp) is None
            && !class_of(m, stretched).softcutout,
{
}

/// A record carries the numbers of its material. A roughness is kept between 0.03 and 1, and is 0.55
/// where the material gives none.
pub proof fn records_carry_their_numbers(st: TableModel, m: MaterialIn, stretched: bool, rules: PackRules)
    ensures
        ({
            let r = record_of(st, m, stretched, rules);
            let low = float(0x3cf5_c28f);
            let high = float(0x3f80_0000);
            &&& r.alpha_cutoff == m.alpha_cutoff
            &&& r.uv_xform == m.uv_xform
            &&& r.tint == m.tint
            &&& r.normal_scale == m.normal_scale
            &&& m.roughness is None ==> r.roughness.bits == 0x3f0c_cccd
            &&& m.roughness is Some && low.le(m.roughness->0) && m.roughness->0.le(high) ==> r.roughness
                == m.roughness->0
            &&& m.roughness is Some && m.roughness->0.lt(low) ==> r.roughness == low
            &&& m.roughness is Some && high.lt(m.roughness->0) ==> r.roughness == high
            &&& r.normal_flags == 1 <==> m.normal_green_flip || rules.green_flip
            &&& r.normal_flags == 0 <==> !(m.normal_green_flip || rules.green_flip)
            &&& m.emissive is Some && named(m.emissive->0.texture) ==> r.emissive_rgb == m.emissive->0.rgb
            &&& !(m.emissive is Some && named(m.emissive->0.texture)) ==> r.emissive_rgb.x.bits == 0
                && r.emissive_rgb.y.bits == 0 && r.emissive_rgb.z.bits == 0
            &&& m.vp is None ==> (r.vp.x.bits, r.vp.y.bits, r.vp.z.bits, r.vp.w.bits) == (0u32, 0u32, 0u32, 0u32)
        }),
{
}

/// The detail maps of a record are those of its material, and count where they are named: the albedo
/// as 1, the normal map as 2.
pub proof fn details_count_where_they_are_named(st: TableModel, m: MaterialIn, stretched: bool, rules: PackRules)
    requires
        m.detail is Some,
    ensures
        ({
            let r = record_of(st, m, stretched, rules);
            let d = m.detail->0;
            let any = named(d.albedo) || named(d.normal);
            &&& r.detail_flags % 2 == 1 <==> named(d.albedo)
            &&& r.detail_flags / 2 == 1 <==> named(d.normal)
            &&& named(d.albedo) ==> r.detail_albedo_uv == d.albedo_uv
            &&& named(d.normal) ==> r.detail_normal_uv == d.normal_uv
            &&& any ==> r.detail_params.x == d.albedo_strength && r.detail_params.y == d.normal_scale
                && r.detail_params.z == rules.fade_near && r.detail_params.w == rules.fade_far
            &&& any ==> r.detail_mean_gain.x == d.albedo_mean_gain.x && r.detail_mean_gain.y
                == d.albedo_mean_gain.y && r.detail_mean_gain.z == d.albedo_mean_gain.z
        }),
{
}

/// A vertex-paint entry repeats its layers as they are written: the place and the tint of each, and
/// the sharpness of the blend, at least 1, behind the first tint.
pub proof fn layers_are_laid_as_written(st: TableModel, m: MaterialIn, a: Vec<Json>)
    requires
        has_three_layers(m.vp),
        m.vp->0.field("layers"@) == Some(Json::Arr(a)),
    ensures
        ({
            let e = paint_entry(st, m);
            let one = float(0x3f80_0000);
            let nil = float(0);
            &&& (e.uv0.x, e.uv0.y, e.uv0.z, e.uv0.w) == (
                number_or(a@[0].field("uv"@), 0, one),
                number_or(a@[0].field("uv"@), 1, one),
                number_or(a@[0].field("uv"@), 2, nil),
                number_or(a@[0].field("uv"@), 3, nil),
            )
            &&& (e.uv1.x, e.uv1.y, e.uv1.z, e.uv1.w) == (
                number_or(a@[1].field("uv"@), 0, one),
                number_or(a@[1].field("uv"@), 1, one),
                number_or(a@[1].field("uv"@), 2, nil),
                number_or(a@[1].field("uv"@), 3, nil),
            )
            &&& (e.uv2.x, e.uv2.y, e.uv2.z, e.uv2.w) == (
                number_or(a@[2].field("uv"@), 0, one),
                number_or(a@[2].field("uv"@), 1, one),
                number_or(a@[2].field("uv"@), 2, nil),
                number_or(a@[2].field("uv"@), 3, nil),
            )
            &&& (e.tint0.x, e.tint0.y, e.tint0.z) == (
                number_or(a@[0].field("tint"@), 0, one),
                number_or(a@[0].field("tint"@), 1, one),
                number_or(a@[0].field("tint"@), 2, one),
            )
            &&& (e.tint1.x, e.tint1.y, e.tint1.z) == (
                number_or(a@[1].field("tint"@), 0, one),
                number_or(a@[1].field("tint"@), 1, one),
                number_or(a@[1].field("tint"@), 2, one),
            )
            &&& (e.tint2.x, e.tint2.y, e.tint2.z) == (
                number_or(a@[2].field("tint"@), 0, one),
                number_or(a@[2].field("tint"@), 1, one),
                number_or(a@[2].field("tint"@), 2, one),
            )
            &&& m.vp->0.field("blend"@) matches Some(Json::Num(b)) ==> one.le(b.value) ==> e.tint0.w == b.value
            &&& m.vp->0.field("blend"@) is None ==> e.tint0.w == one
            &&& !e.tint0.w.lt(one)
        }),
{
}

/// The flag word holds each flag at its own bit.
pub proof fn flags_have_their_bits(c: MatClass)
    ensures
        c.word() == (if c.cutout {
            1int
        } else {
            0
        }) + (if c.blend {
            2int
        } else {
            0
        }) + (if c.softcutout {
            4int
        } else {
            0
        }) + (if c.water {
            8int
        } else {
            0
        }) + (if c.terrain {
            16int
        } else {
            0
        }) + (if c.detail {
            32int
        } else {
            0
        }) + (if c.rfa {
            64int
        } else {
            0
        }) + (if c.vp {
            128int
        } else {
            0
        }) + (if c.puddle_luma {
            256int
        } else {
            0
        }) + (if c.water_matte {
            512int
        } else {
            0
        }) + (if c.decal {
            1024int
        } else {
            0
        }),
{
    reveal(flag);
}

/// A material's texture is stretched where some part of it lays the texture over more than 40 metres.
pub proof fn more_than_forty_metres_stretch(parts: Seq<PartStretch>, id: u32)
    ensures
        is_stretched(parts, id) <==> exists|i: int|
            0 <= i < parts.len() && (#[trigger] parts[i]).material_id == id && float(0x4220_0000).lt(
                parts[i].metres_per_repeat,
            ),
{
    if is_stretched(parts, id) {
        let i = choose|i: int|
            0 <= i < parts.len() && (#[trigger] parts[i]).material_id == id && parts[i].stretched();
        assert(parts[i].material_id == id);
    }
    if exists|i: int|
        0 <= i < parts.len() && (#[trigger] parts[i]).material_id == id && float(0x4220_0000).lt(
            parts[i].metres_per_repeat,
        ) {
        let i = choose|i: int|
            0 <= i < parts.len() && (#[trigger] parts[i]).material_id == id && float(0x4220_0000).lt(
                parts[i].metres_per_repeat,
            );
        assert(parts[i].stretched());
    }
}

/// A member of an object is the last one with its key; there is none exactly where no member has it.
pub proof fn the_last_member_of_a_key_counts(members: Seq<Member>, key: Seq<char>, n: nat, k: int)
    requires
        n <= members.len(),
    ensures
        member_at(members, key, n) == Some(k) <==> {
            &&& 0 <= k < n
            &&& members[k].key@ == key
            &&& forall|j: int| k < j < n ==> (#[trigger] members[j]).key@ != key
        },
        member_at(members, key, n) is None <==> forall|j: int| 0 <= j < n ==> (#[trigger] members[j]).key@ != key,
    decreases n,
{
    if n > 0 {
        the_last_member_of_a_key_counts(members, key, (n - 1) as nat, k);
        assert(members[n - 1].key@ == members[n - 1].key@);
    }
}

/// A number of an array is the one at its place, and another where there is none.
pub proof fn numbers_are_read_at_their_place(a: Vec<Json>, i: int, d: F32)
    requires
        0 <= i,
    ensures
        i < a@.len() && a@[i] is Num ==> number_or(Some(Json::Arr(a)), i, d) == a@[i]->Num_0.value,
        i >= a@.len() || !(a@[i] is Num) ==> number_or(Some(Json::Arr(a)), i, d) == d,
        number_or(None, i, d) == d,
{
}

} // verus!
