//! What single markers, walls, outlines and keys show of the records that they come from.
use crate::f32bits::{float, F32};
use crate::gpu::materials::V3;
use crate::poi::assemble::{gun_name, kept_guns, near_kept};
use crate::poi::card::{any_card, faction_color};
use crate::poi::catalog::{
    by_price, catalog_is_sorted, falling, key_uses, placed, sort_price, use_at, with_keys,
    with_lock, UseView,
};
use crate::poi::layer::{look, wall_corner, worth, LayerToggles, MarkerValue, PoiLayer};
use crate::poi::marker::{
    extract_marks, first_named, lock_marks, merged, same_spot, within, Merged, Tint, WallMark,
};
use crate::poi::records::{
    ExtractDev, GameData, GdDoor, GdExfil, GdLooseItem, GdZone, GeometryItem, Key, Lock,
};
use crate::poi::typed::{
    best_icon, best_price, door_key, exfil_outlines, exfil_walls, friendly_name, hazardous, may_key,
    may_name, nearest, nearest_is_least, zone_outlines, zone_walls, zones_with_area,
};
use vstd::prelude::*;

verus! {

/// Every extract with at least three corners has a wall in the colour of its faction and an outline
/// with its faction, in their order; those with fewer have neither.
pub proof fn extracts_with_an_area_are_fenced(v: Seq<GdExfil>, n: nat)
    requires
        n <= v.len(),
    ensures
        exfil_walls(v, n) == v.take(n as int).filter(|e: GdExfil| e.outline@.len() >= 3).map_values(
            |e: GdExfil|
                WallMark {
                    layer: PoiLayer::Extract,
                    outline: e.outline@,
                    color: faction_color(e.faction.text@),
                    active: e.active,
                    task: None,
                },
        ),
        exfil_outlines(v, n) == v.take(n as int).filter(|e: GdExfil| e.outline@.len() >= 3).map_values(
            |e: GdExfil| (e.faction.text@, e.outline@, e.active),
        ),
    decreases n,
{
    reveal(Seq::filter);
    let s = v.take(n as int);
    let pred = |e: GdExfil| e.outline@.len() >= 3;
    if n > 0 {
        extracts_with_an_area_are_fenced(v, (n - 1) as nat);
        assert(s.drop_last() =~= v.take(n - 1));
    } else {
        assert(s =~= Seq::empty());
    }
    assert(exfil_walls(v, n) =~= s.filter(pred).map_values(
        |e: GdExfil|
            WallMark {
                layer: PoiLayer::Extract,
                outline: e.outline@,
                color: faction_color(e.faction.text@),
                active: e.active,
                task: None,
            },
    ));
    assert(exfil_outlines(v, n) =~= s.filter(pred).map_values(
        |e: GdExfil| (e.faction.text@, e.outline@, e.active),
    ));
}

/// Every zone with at least three corners has a wall in the colour of its layer and an outline, in
/// their order; those with fewer have neither, and cover no hazard.
pub proof fn zones_with_an_area_are_fenced(layer: PoiLayer, v: Seq<GdZone>, n: nat)
    requires
        n <= v.len(),
    ensures
        zone_walls(layer, v, n) == v.take(n as int).filter(|z: GdZone| z.outline@.len() >= 3).map_values(
            |z: GdZone|
                WallMark { layer, outline: z.outline@, color: look(layer).color, active: z.active, task: None },
        ),
        zone_outlines(v, n) == v.take(n as int).filter(|z: GdZone| z.outline@.len() >= 3).map_values(
            |z: GdZone| (z.outline@, z.active),
        ),
        zones_with_area(v, n) == v.take(n as int).filter(|z: GdZone| z.outline@.len() >= 3),
    decreases n,
{
    reveal(Seq::filter);
    let s = v.take(n as int);
    let pred = |z: GdZone| z.outline@.len() >= 3;
    if n > 0 {
        zones_with_an_area_are_fenced(layer, v, (n - 1) as nat);
        assert(s.drop_last() =~= v.take(n - 1));
    } else {
        assert(s =~= Seq::empty());
    }
    assert(zone_walls(layer, v, n) =~= s.filter(pred).map_values(
        |z: GdZone|
            WallMark { layer, outline: z.outline@, color: look(layer).color, active: z.active, task: None },
    ));
    assert(zone_outlines(v, n) =~= s.filter(pred).map_values(|z: GdZone| (z.outline@, z.active)));
    assert(zones_with_area(v, n) =~= s.filter(pred));
}

/// A hazard is covered by the areas of minefields, sniper zones, directional mines and trader zones,
/// and by no other.
pub proof fn four_kinds_of_zones_carry_hazards(g: GameData)
    ensures
        hazardous(g) == (g.minefields@.filter(|z: GdZone| z.outline@.len() >= 3) + g.sniper_zones@.filter(
            |z: GdZone| z.outline@.len() >= 3,
        ) + g.mines_directional@.filter(|z: GdZone| z.outline@.len() >= 3) + g.trader_zones@.filter(
            |z: GdZone| z.outline@.len() >= 3,
        )),
{
    zones_with_an_area_are_fenced(PoiLayer::Hazard, g.minefields@, g.minefields@.len());
    zones_with_an_area_are_fenced(PoiLayer::Hazard, g.sniper_zones@, g.sniper_zones@.len());
    zones_with_an_area_are_fenced(PoiLayer::Hazard, g.mines_directional@, g.mines_directional@.len());
    zones_with_an_area_are_fenced(PoiLayer::Hazard, g.trader_zones@, g.trader_zones@.len());
    assert(g.minefields@.take(g.minefields@.len() as int) =~= g.minefields@);
    assert(g.sniper_zones@.take(g.sniper_zones@.len() as int) =~= g.sniper_zones@);
    assert(g.mines_directional@.take(g.mines_directional@.len() as int) =~= g.mines_directional@);
    assert(g.trader_zones@.take(g.trader_zones@.len() as int) =~= g.trader_zones@);
}

/// A typed extract goes by the name of the nearest extract of the list that has one and is not more
/// than 60 metres away; where there is none, the list has no name for it.
pub proof fn extracts_take_the_nearest_name(exs: Seq<ExtractDev>, dist: Seq<F32>, j: int)
    requires
        exs.len() <= dist.len(),
    ensures
        0 <= j < exs.len() && exs[j].name@.len() > 0 && dist[j].le(float(0x4270_0000)) ==> friendly_name(exs, dist)
            is Some && exists|k: int| {
            &&& 0 <= k < exs.len()
            &&& friendly_name(exs, dist)->0 == (#[trigger] exs[k]).name@
            &&& exs[k].name@.len() > 0 && dist[k].le(float(0x4270_0000))
            &&& dist[k].total_rank() <= dist[j].total_rank()
        },
        (forall|k: int|
            0 <= k < exs.len() ==> (#[trigger] exs[k]).name@.len() == 0 || !dist[k].le(float(0x4270_0000)))
            ==> friendly_name(exs, dist) is None,
{
    let usable = may_name(exs, dist);
    nearest_is_least(dist, usable, usable.len());
    if let Some(k) = nearest(dist, usable, usable.len()) {
        assert(usable[k]);
        assert(exs[k].name@.len() > 0);
    }
    if 0 <= j < exs.len() && exs[j].name@.len() > 0 && dist[j].le(float(0x4270_0000)) {
        assert(usable[j]);
    }
}

/// The key of a door is that of the nearest lock of the list with a named key whose square distance is
/// below 4; a door without a key has none.
pub proof fn doors_take_the_nearest_key(locks: Seq<Lock>, d: GdDoor, j: int)
    requires
        locks.len() <= d.lock_dist@.len(),
    ensures
        d.key_id is None ==> door_key(locks, d) is None,
        d.key_id is Some && d.key_id->0@.len() > 0 && 0 <= j < locks.len() && first_named(locks[j].keys@) is Some
            && d.lock_dist@[j].lt(float(0x4080_0000)) ==> exists|k: int| {
            &&& 0 <= k < locks.len()
            &&& door_key(locks, d) == first_named((#[trigger] locks[k]).keys@)
            &&& first_named(locks[k].keys@) is Some && d.lock_dist@[k].lt(float(0x4080_0000))
            &&& d.lock_dist@[k].total_rank() <= d.lock_dist@[j].total_rank()
        },
        (forall|k: int|
            0 <= k < locks.len() ==> first_named((#[trigger] locks[k]).keys@) is None || !d.lock_dist@[k].lt(
                float(0x4080_0000),
            )) ==> door_key(locks, d) is None,
{
    let dist = d.lock_dist@;
    let usable = may_key(locks, dist);
    nearest_is_least(dist, usable, usable.len());
    if let Some(k) = nearest(dist, usable, usable.len()) {
        assert(usable[k]);
        assert(first_named(locks[k].keys@) is Some);
    }
    if 0 <= j < locks.len() && first_named(locks[j].keys@) is Some && dist[j].lt(float(0x4080_0000)) {
        assert(usable[j]);
    }
}

/// The name of a lock's key is that of the first key that has one.
pub proof fn the_first_key_with_a_name_counts(keys: Seq<Key>, k: int)
    ensures
        0 <= k < keys.len() && keys[k].n@.len() > 0 && (forall|j: int|
            0 <= j < k ==> (#[trigger] keys[j]).n@.len() == 0) ==> first_named(keys) == Some(keys[k].n@),
        (forall|j: int| 0 <= j < keys.len() ==> (#[trigger] keys[j]).n@.len() == 0) ==> first_named(keys) is None,
    decreases keys.len(),
{
    if keys.len() > 0 && keys[0].n@.len() == 0 {
        let rest = keys.drop_first();
        the_first_key_with_a_name_counts(rest, k - 1);
        assert forall|j: int| 0 <= j < rest.len() implies #[trigger] rest[j] == keys[j + 1] by {}
        if 0 <= k < keys.len() && keys[k].n@.len() > 0 && (forall|j: int|
            0 <= j < k ==> (#[trigger] keys[j]).n@.len() == 0) {
            assert(k != 0);
            assert(rest[k - 1] == keys[k]);
            assert forall|j: int| 0 <= j < k - 1 implies (#[trigger] rest[j]).n@.len() == 0 by {
                assert(keys[j + 1].n@.len() == 0);
            }
        }
        if forall|j: int| 0 <= j < keys.len() ==> (#[trigger] keys[j]).n@.len() == 0 {
            assert forall|j: int| 0 <= j < rest.len() implies (#[trigger] rest[j]).n@.len() == 0 by {
                assert(keys[j + 1].n@.len() == 0);
            }
        }
    } else if keys.len() > 0 {
        if 0 < k < keys.len() && (forall|j: int| 0 <= j < k ==> (#[trigger] keys[j]).n@.len() == 0) {
            assert(keys[0].n@.len() == 0);
        }
        assert(keys[0].n@.len() > 0);
    }
}

/// A lock that a keycard opens is violet; others have the colour of their layer.
pub proof fn locks_of_keycards_are_violet(v: Seq<Lock>, i: int)
    requires
        0 <= i < v.len(),
    ensures
        lock_marks(v)[i].tint == Some(Tint::Keycard) <==> any_card(v[i].keys@),
        lock_marks(v)[i].tint is None <==> !any_card(v[i].keys@),
        lock_marks(v)[i].icon == first_named(v[i].keys@),
        !lock_marks(v)[i].inactive,
{
}

/// A typed loot point is worth the price of its first item, where that is above nothing; it shows the
/// icon of its first item unless that is a category.
pub proof fn loot_points_are_worth_their_first_item(items: Seq<GdLooseItem>)
    ensures
        items.len() == 0 ==> best_price(items) is None && best_icon(items) is None,
        items.len() > 0 && items[0].pr is Some && items[0].pr->0.roubles > 0 ==> best_price(items) == Some(
            items[0].pr->0.roubles,
        ),
        items.len() > 0 && items[0].pr is None ==> best_price(items) is None,
        best_price(items) matches Some(p) ==> p > 0,
        items.len() > 0 && items[0].cat == 0 && items[0].n is Some ==> best_icon(items) == Some(items[0].n->0@),
        items.len() > 0 && items[0].cat != 0 ==> best_icon(items) is None,
{
}

/// Of the parts of guns that stand close together the first is marked, and one part at least for
/// every place with a gun: a part is marked exactly where its name is that of a gun and no marked part
/// before it is less than three metres away.
pub proof fn one_marker_for_each_gun(v: Seq<GeometryItem>, n: nat, i: int)
    requires
        0 <= i < n <= v.len(),
    ensures
        kept_guns(v, n).contains(i) <==> v[i].mesh is Some && gun_name(v[i].mesh->0@) && forall|g: int|
            0 <= g < i && #[trigger] kept_guns(v, n).contains(g) ==> !(g < v[i].away@.len() && v[i].away@[g].lt(
                float(0x4040_0000),
            )),
        forall|k: int| 0 <= k < kept_guns(v, n).len() ==> 0 <= #[trigger] kept_guns(v, n)[k] < n,
    decreases n,
{
    let kept = kept_guns(v, n);
    let before = kept_guns(v, (n - 1) as nat);
    guns_bound(v, n);
    guns_bound(v, (n - 1) as nat);
    assert forall|g: int| 0 <= g < n - 1 implies kept.contains(g) == before.contains(g) by {
        if before.contains(g) {
            let k = choose|k: int| 0 <= k < before.len() && before[k] == g;
            assert(kept[k] == g);
        }
        if kept.contains(g) {
            let k = choose|k: int| 0 <= k < kept.len() && kept[k] == g;
            if k < before.len() {
                assert(before[k] == g);
            }
        }
    }
    if i < n - 1 {
        one_marker_for_each_gun(v, (n - 1) as nat, i);
        if kept.contains(i) {
            assert forall|g: int| 0 <= g < i && #[trigger] kept.contains(g) implies !(g < v[i].away@.len() && v[i].away@[g].lt(
                float(0x4040_0000),
            )) by {
                assert(before.contains(g));
            }
        }
        if v[i].mesh is Some && gun_name(v[i].mesh->0@) && (forall|g: int|
            0 <= g < i && #[trigger] kept.contains(g) ==> !(g < v[i].away@.len() && v[i].away@[g].lt(
                float(0x4040_0000),
            ))) {
            assert forall|g: int| 0 <= g < i && #[trigger] before.contains(g) implies !(g < v[i].away@.len()
                && v[i].away@[g].lt(float(0x4040_0000))) by {
                assert(kept.contains(g));
            }
        }
    } else {
        let near = near_kept(v[i].away@, before, 0x4040_0000);
        if near {
            let k = choose|k: int| 0 <= k < before.len() && within(v[i].away@, #[trigger] before[k], 0x4040_0000);
            assert(before.contains(before[k]));
            assert(kept.contains(before[k]));
        }
        if exists|g: int| 0 <= g < i && #[trigger] kept.contains(g) && g < v[i].away@.len() && v[i].away@[g].lt(
            float(0x4040_0000),
        ) {
            let g = choose|g: int|
                0 <= g < i && #[trigger] kept.contains(g) && g < v[i].away@.len() && v[i].away@[g].lt(
                    float(0x4040_0000),
                );
            assert(before.contains(g));
            let k = choose|k: int| 0 <= k < before.len() && before[k] == g;
            assert(within(v[i].away@, before[k], 0x4040_0000));
        }
        if v[i].mesh is Some && gun_name(v[i].mesh->0@) && !near {
            assert(kept[before.len() as int] == i);
        } else {
            assert(kept == before);
        }
    }
}

proof fn guns_bound(v: Seq<GeometryItem>, n: nat)
    requires
        n <= v.len(),
    ensures
        forall|k: int| 0 <= k < kept_guns(v, n).len() ==> 0 <= #[trigger] kept_guns(v, n)[k] < n,
    decreases n,
{
    if n > 0 {
        guns_bound(v, (n - 1) as nat);
        let before = kept_guns(v, (n - 1) as nat);
        assert forall|k: int| 0 <= k < kept_guns(v, n).len() implies 0 <= #[trigger] kept_guns(v, n)[k] < n by {
            if k < before.len() {
                assert(kept_guns(v, n)[k] == before[k]);
            }
        }
    }
}

/// Whether extract `i` of the list is at the spot of joined extract `m`: of the same name and less
/// than three metres from its first entry.
pub open spec fn at_spot(v: Seq<ExtractDev>, m: Merged, i: int) -> bool {
    v[m.first].name@ == v[i].name@ && 0 <= m.first < v[i].dist2@.len() && v[i].dist2@[m.first].lt(float(0x4110_0000))
}

proof fn spot_is_the_first(v: Seq<ExtractDev>, m: Seq<Merged>, i: int)
    ensures
        same_spot(v, m, i) is None <==> forall|k: int| 0 <= k < m.len() ==> !at_spot(v, #[trigger] m[k], i),
        same_spot(v, m, i) matches Some(k) ==> 0 <= k < m.len() && at_spot(v, m[k], i),
    decreases m.len(),
{
    if m.len() > 0 {
        let p = m.drop_last();
        spot_is_the_first(v, p, i);
        assert forall|k: int| 0 <= k < p.len() implies #[trigger] p[k] == m[k] by {}
        if same_spot(v, m, i) is None {
            assert forall|k: int| 0 <= k < m.len() implies !at_spot(v, #[trigger] m[k], i) by {
                if k < p.len() {
                    assert(!at_spot(v, p[k], i));
                }
            }
        } else if same_spot(v, p, i) is None {
            assert(at_spot(v, m[m.len() - 1], i));
        } else {
            let k = same_spot(v, p, i)->0;
            assert(at_spot(v, m[k], i));
        }
    }
}

/// A new marker is made for an entry of the list exactly where no marker of its name is less than
/// three metres away; else its faction joins that marker, once.
pub proof fn entries_at_one_spot_share_a_marker(v: Seq<ExtractDev>, n: nat)
    requires
        0 < n <= v.len(),
    ensures
        ({
            let before = merged(v, (n - 1) as nat);
            let all = merged(v, n);
            let free = forall|k: int| 0 <= k < before.len() ==> !at_spot(v, #[trigger] before[k], n - 1);
            &&& free ==> all.len() == before.len() + 1 && all.last().first == n - 1 && all.last().facs
                == v[n - 1].fac.text@ && all.drop_last() == before
            &&& !free ==> all.len() == before.len()
            &&& forall|k: int|
                0 <= k < before.len() ==> (#[trigger] all[k]).first == before[k].first && all[k].facs.len()
                    >= before[k].facs.len() && all[k].facs.take(before[k].facs.len() as int) == before[k].facs
        }),
{
    let before = merged(v, (n - 1) as nat);
    let all = merged(v, n);
    spot_is_the_first(v, before, n - 1);
    match same_spot(v, before, n - 1) {
        None => {
            assert(all.drop_last() =~= before);
            assert forall|k: int| 0 <= k < before.len() implies (#[trigger] all[k]).first == before[k].first
                && all[k].facs.len() >= before[k].facs.len() && all[k].facs.take(before[k].facs.len() as int)
                == before[k].facs by {
                assert(all[k] == before[k]);
                assert(all[k].facs.take(before[k].facs.len() as int) =~= before[k].facs);
            }
        },
        Some(s) => {
            assert forall|k: int| 0 <= k < before.len() implies (#[trigger] all[k]).first == before[k].first
                && all[k].facs.len() >= before[k].facs.len() && all[k].facs.take(before[k].facs.len() as int)
                == before[k].facs by {
                assert(all[k].facs.take(before[k].facs.len() as int) =~= before[k].facs);
            }
        },
    }
}

/// A marker of a joined extract stands where its first entry does, under its name; it has the
/// colour of scavs where only they may use it and that of shared ones where factions are joined.
pub proof fn joined_extracts_stand_at_their_first_entry(v: Seq<ExtractDev>, i: int)
    requires
        0 <= i < merged(v, v.len()).len(),
    ensures
        ({
            let m = extract_marks(v)[i];
            let e = merged(v, v.len())[i];
            &&& extract_marks(v).len() == merged(v, v.len()).len()
            &&& m.layer == PoiLayer::Extract
            &&& m.pos == v[e.first].pos
            &&& m.faction == Some(e.facs)
            &&& e.facs == "scav"@ ==> m.tint == Some(Tint::Scav)
            &&& e.facs.contains('+') && e.facs != "scav"@ ==> m.tint == Some(Tint::Shared)
            &&& !m.inactive
        }),
{
}

/// The four colours of extracts: of scavs, of shared ones, also where factions are joined, of secret
/// ones, and of all others, which is that of their layer.
pub proof fn extracts_are_coloured_by_faction(fac: Seq<char>)
    ensures
        ({
            let c = faction_color(fac);
            &&& fac == "scav"@ ==> (c.r.bits, c.g.bits, c.b.bits) == (0x3f73_3333u32, 0x3ee6_6666u32, 0x3dcc_cccdu32)
            &&& fac == "shared"@ ==> (c.r.bits, c.g.bits, c.b.bits) == (
                0x3f47_ae14u32,
                0x3f73_3333u32,
                0x3f51_eb85u32,
            )
            &&& fac == "secret"@ ==> (c.r.bits, c.g.bits, c.b.bits) == (
                0x3f59_999au32,
                0x3e99_999au32,
                0x3f66_6666u32,
            )
            &&& fac.contains('+') ==> c == faction_color("shared"@)
            &&& fac != "scav"@ && fac != "shared"@ && fac != "secret"@ && !fac.contains('+') ==> c == look(
                PoiLayer::Extract,
            ).color
        }),
{
    reveal_strlit("scav");
    reveal_strlit("shared");
    reveal_strlit("secret");
    assert("scav"@.len() == 4 && "shared"@.len() == 6 && "secret"@.len() == 6);
    assert("shared"@[1] == 'h' && "secret"@[1] == 'e');
    assert forall|i: int| 0 <= i < 4 implies "scav"@[i] != '+' by {}
    assert forall|i: int| 0 <= i < 6 implies "secret"@[i] != '+' by {}
}

/// Each switch of the panel is that of one layer.
pub proof fn each_layer_has_its_switch(t: LayerToggles)
    ensures
        t.on(PoiLayer::PmcSpawn) == t.pmc_spawns,
        t.on(PoiLayer::ScavSpawn) == t.scav_spawns,
        t.on(PoiLayer::Boss) == t.bosses,
        t.on(PoiLayer::Extract) == t.extracts,
        t.on(PoiLayer::Door) == t.doors,
        t.on(PoiLayer::Interactable) == t.interactables,
        t.on(PoiLayer::Lock) == t.locks,
        t.on(PoiLayer::Hazard) == t.hazards,
        t.on(PoiLayer::Switch) == t.switches,
        t.on(PoiLayer::Transit) == t.transits,
        t.on(PoiLayer::Stationary) == t.stationary,
        t.on(PoiLayer::LooseLoot) == t.loose,
        t.on(PoiLayer::Quest) == t.quests,
        t.on(PoiLayer::Minefield) == t.minefields,
        t.on(PoiLayer::SniperZone) == t.sniper_zones,
{
}

/// The roubles of a value.
pub open spec fn roubles(v: MarkerValue) -> i64 {
    v.0
}

/// A marker of a layer that is off never shows. One of a layer that is on shows unless it has a value
/// below the least, or is inactive while such are hidden.
pub proof fn markers_are_hidden_for_a_reason(t: LayerToggles, l: PoiLayer, v: Option<MarkerValue>, inactive: bool)
    ensures
        !t.on(l) ==> !t.shows(l, v, inactive),
        t.on(l) && (v is None || t.min_value <= 0 || roubles(v->0) >= t.min_value) && !(inactive && t.hide_inactive)
            ==> t.shows(l, v, inactive),
        t.min_value > 0 && v is Some && roubles(v->0) < t.min_value ==> !t.shows(l, v, inactive),
        t.hide_inactive && inactive ==> !t.shows(l, v, inactive),
{
}

/// What belongs to a followed task shows while tasks are on; what belongs to another is hidden as soon
/// as some task is followed, and its walls always.
pub proof fn followed_tasks_show(t: LayerToggles, active: Seq<Seq<char>>, task: Seq<char>, wall: bool)
    ensures
        !t.quests ==> !t.shows_task(active, task, wall),
        t.quests && active.contains(task) ==> t.shows_task(active, task, wall),
        !active.contains(task) && active.len() > 0 ==> !t.shows_task(active, task, wall),
        active.len() == 0 ==> t.shows_task(active, task, wall) == (t.quests && !wall),
{
    if active.len() == 0 {
        assert(!active.contains(task));
    }
}

/// The two triangles over a side of an outline join the feet and the tops of its two corners, and the
/// last side leads back to the first corner: the first triangle has both feet and the top of the
/// nearer corner, the second both tops and the foot of the farther one.
pub proof fn walls_close_around_their_outline(n: nat, i: int)
    requires
        0 <= i < n,
    ensures
        ({
            let next = if i + 1 == n {
                0
            } else {
                i + 1
            };
            &&& wall_corner(n, i, 0) == 2 * i
            &&& wall_corner(n, i, 1) == 2 * next
            &&& wall_corner(n, i, 2) == 2 * i + 1
            &&& wall_corner(n, i, 3) == 2 * i + 1
            &&& wall_corner(n, i, 4) == 2 * next
            &&& wall_corner(n, i, 5) == 2 * next + 1
        }),
{
    if i + 1 == n {
        assert((i + 1) % (n as int) == 0) by (nonlinear_arith)
            requires
                i + 1 == n,
                n > 0,
        ;
    } else {
        vstd::arithmetic::div_mod::lemma_small_mod((i + 1) as nat, n);
    }
}

/// Where the locks are that a key of the given name opens, once for each time that a lock names it.
pub open spec fn opened_by_keys(keys: Seq<Key>, pos: V3, name: Seq<char>, n: nat) -> Seq<V3>
    decreases n,
{
    if n == 0 {
        Seq::empty()
    } else if keys[n - 1].n@ == name {
        opened_by_keys(keys, pos, name, (n - 1) as nat).push(pos)
    } else {
        opened_by_keys(keys, pos, name, (n - 1) as nat)
    }
}

/// Where the locks are, among the first `n`, that a key of the given name opens.
pub open spec fn opened_by(locks: Seq<Lock>, name: Seq<char>, n: nat) -> Seq<V3>
    decreases n,
{
    if n == 0 {
        Seq::empty()
    } else {
        opened_by(locks, name, (n - 1) as nat) + opened_by_keys(
            locks[n - 1].keys@,
            locks[n - 1].pos,
            name,
            locks[n - 1].keys@.len(),
        )
    }
}

/// Where the locks of a key stand in a catalogue; none where it is not listed.
pub open spec fn locks_listed(v: Seq<UseView>, name: Seq<char>) -> Seq<V3> {
    if use_at(v, name) < v.len() {
        v[use_at(v, name)].locks
    } else {
        Seq::empty()
    }
}

proof fn use_at_is_first(v: Seq<UseView>, name: Seq<char>)
    ensures
        0 <= use_at(v, name) <= v.len(),
        use_at(v, name) < v.len() ==> v[use_at(v, name)].name == name,
        forall|j: int| 0 <= j < use_at(v, name) ==> (#[trigger] v[j]).name != name,
    decreases v.len(),
{
    if v.len() > 0 && v[0].name != name {
        let rest = v.drop_first();
        use_at_is_first(rest, name);
        assert forall|j: int| 0 <= j < use_at(v, name) implies (#[trigger] v[j]).name != name by {
            if j > 0 {
                assert(rest[j - 1] == v[j]);
            }
        }
    }
}

proof fn use_at_unique(v: Seq<UseView>, name: Seq<char>, k: int)
    requires
        0 <= k <= v.len(),
        k < v.len() ==> v[k].name == name,
        forall|j: int| 0 <= j < k ==> (#[trigger] v[j]).name != name,
    ensures
        use_at(v, name) == k,
{
    use_at_is_first(v, name);
}

proof fn lock_is_listed(v: Seq<UseView>, k: Key, pos: V3, name: Seq<char>)
    requires
        name.len() > 0,
    ensures
        locks_listed(with_lock(v, k, pos), name) == (if k.n@ == name {
            locks_listed(v, name).push(pos)
        } else {
            locks_listed(v, name)
        }),
{
    let i = use_at(v, k.n@);
    let r = with_lock(v, k, pos);
    use_at_is_first(v, k.n@);
    use_at_is_first(v, name);
    if k.n@.len() > 0 {
        if i < v.len() {
            let at = use_at(v, name);
            assert forall|j: int| 0 <= j < v.len() implies (#[trigger] r[j]).name == v[j].name by {}
            use_at_unique(r, name, at);
        } else {
            let at = use_at(v, name);
            if at < v.len() {
                assert(r[at] == v[at]);
                use_at_unique(r, name, at);
            } else if k.n@ == name {
                use_at_unique(r, name, v.len() as int);
                assert(Seq::<V3>::empty().push(pos) =~= seq![pos]);
            } else {
                use_at_unique(r, name, (v.len() + 1) as int);
            }
        }
    }
}

proof fn keys_are_listed(v: Seq<UseView>, keys: Seq<Key>, pos: V3, n: nat, name: Seq<char>)
    requires
        name.len() > 0,
        n <= keys.len(),
    ensures
        locks_listed(with_keys(v, keys, pos, n), name) == locks_listed(v, name) + opened_by_keys(keys, pos, name, n),
    decreases n,
{
    if n > 0 {
        keys_are_listed(v, keys, pos, (n - 1) as nat, name);
        lock_is_listed(with_keys(v, keys, pos, (n - 1) as nat), keys[n - 1], pos, name);
    }
    assert(locks_listed(with_keys(v, keys, pos, n), name) =~= locks_listed(v, name) + opened_by_keys(
        keys,
        pos,
        name,
        n,
    ));
}

/// A key with a name is listed with just the locks that name it, in their order.
pub proof fn keys_are_listed_with_their_locks(locks: Seq<Lock>, n: nat, name: Seq<char>)
    requires
        name.len() > 0,
        n <= locks.len(),
    ensures
        locks_listed(key_uses(locks, n), name) == opened_by(locks, name, n),
    decreases n,
{
    if n > 0 {
        keys_are_listed_with_their_locks(locks, (n - 1) as nat, name);
        let l = locks[n - 1];
        keys_are_listed(key_uses(locks, (n - 1) as nat), l.keys@, l.pos, l.keys@.len(), name);
    }
    assert(locks_listed(key_uses(locks, n), name) =~= opened_by(locks, name, n));
}

/// A key that is not listed yet is listed with its own price and with whether it is a card, and a key
/// that is listed keeps both.
pub proof fn keys_keep_their_first_price(v: Seq<UseView>, k: Key, pos: V3)
    requires
        k.n@.len() > 0,
    ensures
        ({
            let r = with_lock(v, k, pos);
            let at = use_at(r, k.n@);
            &&& at < r.len() && r[at].name == k.n@
            &&& use_at(v, k.n@) == v.len() ==> r.len() == v.len() + 1 && r[at].card == (k.card == 1) && (k.pr is Some
                ==> r[at].price == Some(k.pr->0.roubles)) && (k.pr is None ==> r[at].price is None)
            &&& use_at(v, k.n@) < v.len() ==> r.len() == v.len() && r[at].card == v[at].card && r[at].price
                == v[at].price
        }),
{
    let r = with_lock(v, k, pos);
    let i = use_at(v, k.n@);
    use_at_is_first(v, k.n@);
    if i < v.len() {
        assert forall|j: int| 0 <= j < i implies (#[trigger] r[j]).name != k.n@ by {
            assert(r[j] == v[j]);
        }
        use_at_unique(r, k.n@, i);
    } else {
        assert forall|j: int| 0 <= j < i implies (#[trigger] r[j]).name != k.n@ by {
            assert(r[j] == v[j]);
        }
        use_at_unique(r, k.n@, v.len() as int);
    }
}

proof fn filter_of_one<T>(x: T, pred: spec_fn(T) -> bool)
    ensures
        seq![x].filter(pred) == (if pred(x) {
            seq![x]
        } else {
            Seq::empty()
        }),
{
    reveal(Seq::filter);
    assert(seq![x].drop_last() =~= Seq::empty());
    assert(Seq::<T>::empty().filter(pred) =~= Seq::empty());
    assert(seq![x].filter(pred) =~= (if pred(x) {
        seq![x]
    } else {
        Seq::empty()
    }));
}

proof fn filter_joined<T>(a: Seq<T>, b: Seq<T>, pred: spec_fn(T) -> bool)
    ensures
        (a + b).filter(pred) == a.filter(pred) + b.filter(pred),
{
    Seq::filter_distributes_over_add(a, b, pred);
}

proof fn placed_keeps_equals(u: UseView, v: Seq<UseView>, p: int)
    ensures
        placed(u, v).filter(|x: UseView| sort_price(x) == p) == (if sort_price(u) == p {
            seq![u]
        } else {
            Seq::empty()
        }) + v.filter(|x: UseView| sort_price(x) == p),
    decreases v.len(),
{
    let pred = |x: UseView| sort_price(x) == p;
    filter_of_one(u, pred);
    if v.len() == 0 {
        reveal(Seq::filter);
        assert(v.filter(pred) =~= Seq::empty());
        assert(placed(u, v).filter(pred) =~= seq![u].filter(pred) + v.filter(pred));
    } else if sort_price(v[0]) <= sort_price(u) {
        filter_joined(seq![u], v, pred);
    } else {
        let rest = v.drop_first();
        placed_keeps_equals(u, rest, p);
        filter_joined(seq![v[0]], placed(u, rest), pred);
        assert(v =~= seq![v[0]] + rest);
        filter_joined(seq![v[0]], rest, pred);
        filter_of_one(v[0], pred);
        assert(placed(u, v).filter(pred) =~= seq![u].filter(pred) + v.filter(pred));
    }
}

/// Keys of one price stay in the order in which they were found; all others stand by falling price.
pub proof fn keys_of_one_price_keep_their_order(v: Seq<UseView>, p: int)
    ensures
        by_price(v).filter(|x: UseView| sort_price(x) == p) == v.filter(|x: UseView| sort_price(x) == p),
        by_price(v).to_multiset() == v.to_multiset(),
        forall|i: int, j: int|
            0 <= i < j < by_price(v).len() ==> sort_price(#[trigger] by_price(v)[i]) >= sort_price(
                #[trigger] by_price(v)[j],
            ),
    decreases v.len(),
{
    let pred = |x: UseView| sort_price(x) == p;
    catalog_is_sorted(v);
    if v.len() > 0 {
        let rest = v.drop_first();
        keys_of_one_price_keep_their_order(rest, p);
        placed_keeps_equals(v[0], by_price(rest), p);
        filter_of_one(v[0], pred);
        assert(v =~= seq![v[0]] + rest);
        filter_joined(seq![v[0]], rest, pred);
        assert(by_price(v).filter(pred) =~= v.filter(pred));
    } else {
        assert(by_price(v) =~= v);
    }
}

/// A key is sorted by its price, and as if it cost nothing where it has none.
pub proof fn keys_without_a_price_come_last(u: UseView)
    ensures
        u.price matches Some(p) ==> sort_price(u) == p,
        u.price is None ==> sort_price(u) == 0,
{
}

} // verus!
