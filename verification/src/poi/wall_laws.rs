//! Which zones are fenced on which layer, and which names and keys are told apart.
use crate::gpu::materials::V3;
use crate::poi::assemble::{
    gun_name, junk_extract, map_key_text, version_at, GameDataZones, PoiSources,
};
use crate::poi::layer::{look, PoiLayer};
use crate::poi::marker::{Tint, WallMark};
use crate::poi::point_laws::{extracts_with_an_area_are_fenced, zones_with_an_area_are_fenced};
use crate::poi::quests::{obj_quest_walls, quest_walls, zone_quest_walls};
use crate::poi::records::{ExtractDev, GdExfil, GdZone, QuestObjective, QuestTask, QuestZone};
use crate::poi::typed::{exfil_marks, exfil_rings, rings, zone_marks, ZoneKind};
use crate::text::{ascii_lowered, holds_text};
use vstd::prelude::*;

verus! {

/// The outlines of the walls of one layer, in their order.
pub open spec fn outlines_on(ws: Seq<WallMark>, l: PoiLayer) -> Seq<Seq<V3>>
    decreases ws.len(),
{
    if ws.len() == 0 {
        Seq::empty()
    } else if ws.last().layer == l {
        outlines_on(ws.drop_last(), l).push(ws.last().outline)
    } else {
        outlines_on(ws.drop_last(), l)
    }
}

proof fn outlines_on_joined(a: Seq<WallMark>, b: Seq<WallMark>, l: PoiLayer)
    ensures
        outlines_on(a + b, l) == outlines_on(a, l) + outlines_on(b, l),
    decreases b.len(),
{
    if b.len() == 0 {
        assert(a + b =~= a);
        assert(outlines_on(a, l) + outlines_on(b, l) =~= outlines_on(a, l));
    } else {
        outlines_on_joined(a, b.drop_last(), l);
        assert((a + b).drop_last() =~= a + b.drop_last());
        assert((a + b).last() == b.last());
        assert(outlines_on(a + b, l) =~= outlines_on(a, l) + outlines_on(b, l));
    }
}

proof fn outlines_of_one_layer(ws: Seq<WallMark>, k: PoiLayer, at: Seq<Seq<V3>>, l: PoiLayer)
    requires
        ws.len() == at.len(),
        forall|i: int| 0 <= i < ws.len() ==> (#[trigger] ws[i]).layer == k && ws[i].outline == at[i],
    ensures
        outlines_on(ws, l) == (if l == k {
            at
        } else {
            Seq::empty()
        }),
    decreases ws.len(),
{
    if ws.len() > 0 {
        outlines_of_one_layer(ws.drop_last(), k, at.drop_last(), l);
        assert(at.drop_last().push(at.last()) =~= at);
        assert(ws.last() == ws[ws.len() - 1]);
        assert(at.last() == at[at.len() - 1]);
    } else {
        assert(at =~= Seq::empty());
    }
}

/// The outlines of the zones that have an area.
pub open spec fn areas(v: Seq<GdZone>) -> Seq<Seq<V3>> {
    v.filter(|z: GdZone| z.outline@.len() >= 3).map_values(|z: GdZone| z.outline@)
}

proof fn walls_of_zones(layer: PoiLayer, v: Seq<GdZone>, l: PoiLayer)
    ensures
        outlines_on(crate::poi::typed::zone_walls(layer, v, v.len()), l) == (if l == layer {
            areas(v)
        } else {
            Seq::empty()
        }),
{
    zones_with_an_area_are_fenced(layer, v, v.len());
    assert(v.take(v.len() as int) =~= v);
    outlines_of_one_layer(crate::poi::typed::zone_walls(layer, v, v.len()), layer, areas(v), l);
}

/// Walls stand around the typed zones with an area, each on the layer of its kind: extracts, minefields,
/// sniper zones and ways to other maps on their own, directional mines and trader zones on that of
/// hazards.
pub proof fn zones_are_fenced_on_their_layers(s: PoiSources, l: PoiLayer)
    requires
        s.gamedata is Some,
    ensures
        ({
            let g = s.gamedata->0;
            let w = outlines_on(s.typed_walls(), l);
            &&& l == PoiLayer::Extract ==> w == g.exfils@.filter(|e: GdExfil| e.outline@.len() >= 3).map_values(
                |e: GdExfil| e.outline@,
            )
            &&& l == PoiLayer::Minefield ==> w == areas(g.minefields@)
            &&& l == PoiLayer::SniperZone ==> w == areas(g.sniper_zones@)
            &&& l == PoiLayer::Hazard ==> w == areas(g.mines_directional@) + areas(g.trader_zones@)
            &&& l == PoiLayer::Transit ==> w == areas(g.transit_points@)
            &&& l == PoiLayer::Quest ==> w.len() == 0
        }),
{
    let g = s.gamedata->0;
    let ex = g.exfils@.filter(|e: GdExfil| e.outline@.len() >= 3).map_values(|e: GdExfil| e.outline@);
    let m0 = crate::poi::typed::exfil_walls(g.exfils@, g.exfils@.len());
    extracts_with_an_area_are_fenced(g.exfils@, g.exfils@.len());
    assert(g.exfils@.take(g.exfils@.len() as int) =~= g.exfils@);
    outlines_of_one_layer(m0, PoiLayer::Extract, ex, l);
    let m1 = crate::poi::typed::zone_walls(PoiLayer::Minefield, g.minefields@, g.minefields@.len());
    let m2 = crate::poi::typed::zone_walls(PoiLayer::SniperZone, g.sniper_zones@, g.sniper_zones@.len());
    let m3 = crate::poi::typed::zone_walls(PoiLayer::Hazard, g.mines_directional@, g.mines_directional@.len());
    let m4 = crate::poi::typed::zone_walls(PoiLayer::Hazard, g.trader_zones@, g.trader_zones@.len());
    let m5 = crate::poi::typed::zone_walls(PoiLayer::Transit, g.transit_points@, g.transit_points@.len());
    walls_of_zones(PoiLayer::Minefield, g.minefields@, l);
    walls_of_zones(PoiLayer::SniperZone, g.sniper_zones@, l);
    walls_of_zones(PoiLayer::Hazard, g.mines_directional@, l);
    walls_of_zones(PoiLayer::Hazard, g.trader_zones@, l);
    walls_of_zones(PoiLayer::Transit, g.transit_points@, l);
    outlines_on_joined(m0, m1, l);
    outlines_on_joined(m0 + m1, m2, l);
    outlines_on_joined(m0 + m1 + m2, m3, l);
    outlines_on_joined(m0 + m1 + m2 + m3, m4, l);
    outlines_on_joined(m0 + m1 + m2 + m3 + m4, m5, l);
    assert(s.typed_walls() == m0 + m1 + m2 + m3 + m4 + m5);
    let w = outlines_on(s.typed_walls(), l);
    match l {
        PoiLayer::Extract => assert(w =~= ex),
        PoiLayer::Minefield => assert(w =~= areas(g.minefields@)),
        PoiLayer::SniperZone => assert(w =~= areas(g.sniper_zones@)),
        PoiLayer::Hazard => assert(w =~= areas(g.mines_directional@) + areas(g.trader_zones@)),
        PoiLayer::Transit => assert(w =~= areas(g.transit_points@)),
        _ => assert(w =~= Seq::empty()),
    }
}

/// The outlines with whether their zones are active.
pub open spec fn active_areas(v: Seq<GdZone>) -> Seq<(Seq<V3>, bool)> {
    v.filter(|z: GdZone| z.outline@.len() >= 3).map_values(|z: GdZone| (z.outline@, z.active))
}

/// The outlines of a map are those of its typed zones with an area, each under what shows it; they are
/// in use where there are extracts, minefields or sniper zones.
pub proof fn outlines_are_those_of_the_zones(s: PoiSources, z: GameDataZones)
    requires
        s.zones_are(z),
        s.gamedata is Some,
    ensures
        ({
            let g = s.gamedata->0;
            &&& exfil_rings(z.exfils@) == g.exfils@.filter(|e: GdExfil| e.outline@.len() >= 3).map_values(
                |e: GdExfil| (e.faction.text@, e.outline@, e.active),
            )
            &&& rings(z.minefields@) == active_areas(g.minefields@)
            &&& rings(z.sniper_zones@) == active_areas(g.sniper_zones@)
            &&& rings(z.hazard_zones@) == active_areas(g.mines_directional@) + active_areas(g.trader_zones@)
            &&& rings(z.transits@) == active_areas(g.transit_points@)
            &&& z.live <==> g.exfils@.len() > 0 || g.minefields@.len() > 0 || g.sniper_zones@.len() > 0
            &&& z.draped == g.draped
        }),
{
    let g = s.gamedata->0;
    extracts_with_an_area_are_fenced(g.exfils@, g.exfils@.len());
    zones_with_an_area_are_fenced(PoiLayer::Hazard, g.minefields@, g.minefields@.len());
    zones_with_an_area_are_fenced(PoiLayer::Hazard, g.sniper_zones@, g.sniper_zones@.len());
    zones_with_an_area_are_fenced(PoiLayer::Hazard, g.mines_directional@, g.mines_directional@.len());
    zones_with_an_area_are_fenced(PoiLayer::Hazard, g.trader_zones@, g.trader_zones@.len());
    zones_with_an_area_are_fenced(PoiLayer::Hazard, g.transit_points@, g.transit_points@.len());
    assert(g.exfils@.take(g.exfils@.len() as int) =~= g.exfils@);
    assert(g.minefields@.take(g.minefields@.len() as int) =~= g.minefields@);
    assert(g.sniper_zones@.take(g.sniper_zones@.len() as int) =~= g.sniper_zones@);
    assert(g.mines_directional@.take(g.mines_directional@.len() as int) =~= g.mines_directional@);
    assert(g.trader_zones@.take(g.trader_zones@.len() as int) =~= g.trader_zones@);
    assert(g.transit_points@.take(g.transit_points@.len() as int) =~= g.transit_points@);
}

/// Whether a zone of a task has an area on the map.
pub open spec fn is_fenced(z: QuestZone, key: Seq<char>) -> bool {
    z.map@ == key && z.pos is Some && z.outline@.len() >= 3
}

/// Every zone of a task with an area on the map has its wall, in the colour of tasks and with the id of
/// its task.
pub proof fn zones_of_tasks_are_fenced(ts: Seq<QuestTask>, key: Seq<char>, i: int, j: int, k: int)
    requires
        0 <= i < ts.len(),
        0 <= j < ts[i].objectives@.len(),
        0 <= k < ts[i].objectives@[j].zones@.len(),
        is_fenced(ts[i].objectives@[j].zones@[k], key),
    ensures
        quest_walls(ts, key, ts.len()).contains(
            (WallMark {
                layer: PoiLayer::Quest,
                outline: ts[i].objectives@[j].zones@[k].outline@,
                color: look(PoiLayer::Quest).color,
                active: true,
                task: Some(ts[i].id@),
            }),
        ),
{
    let t = ts[i];
    let o = t.objectives@[j];
    let w = WallMark {
        layer: PoiLayer::Quest,
        outline: o.zones@[k].outline@,
        color: look(PoiLayer::Quest).color,
        active: true,
        task: Some(t.id@),
    };
    zone_is_fenced(t, o, key, o.zones@.len(), k, w);
    objective_is_fenced(t, key, t.objectives@.len(), j, w);
    task_is_fenced(ts, key, ts.len(), i, w);
}

proof fn zone_is_fenced(t: QuestTask, o: QuestObjective, key: Seq<char>, n: nat, k: int, w: WallMark)
    requires
        0 <= k < n <= o.zones@.len(),
        is_fenced(o.zones@[k], key),
        w == (WallMark {
            layer: PoiLayer::Quest,
            outline: o.zones@[k].outline@,
            color: look(PoiLayer::Quest).color,
            active: true,
            task: Some(t.id@),
        }),
    ensures
        zone_quest_walls(t, o, key, n).contains(w),
    decreases n,
{
    let rest = zone_quest_walls(t, o, key, (n - 1) as nat);
    if k == n - 1 {
        assert(zone_quest_walls(t, o, key, n)[rest.len() as int] == w);
    } else {
        zone_is_fenced(t, o, key, (n - 1) as nat, k, w);
        let q = choose|q: int| 0 <= q < rest.len() && rest[q] == w;
        assert(zone_quest_walls(t, o, key, n)[q] == w);
    }
}

proof fn objective_is_fenced(t: QuestTask, key: Seq<char>, n: nat, j: int, w: WallMark)
    requires
        0 <= j < n <= t.objectives@.len(),
        zone_quest_walls(t, t.objectives@[j], key, t.objectives@[j].zones@.len()).contains(w),
    ensures
        obj_quest_walls(t, key, n).contains(w),
    decreases n,
{
    let rest = obj_quest_walls(t, key, (n - 1) as nat);
    let o = t.objectives@[n - 1];
    let own = zone_quest_walls(t, o, key, o.zones@.len());
    if j == n - 1 {
        let q = choose|q: int| 0 <= q < own.len() && own[q] == w;
        assert(obj_quest_walls(t, key, n)[rest.len() + q] == w);
    } else {
        objective_is_fenced(t, key, (n - 1) as nat, j, w);
        let q = choose|q: int| 0 <= q < rest.len() && rest[q] == w;
        assert(obj_quest_walls(t, key, n)[q] == w);
    }
}

proof fn task_is_fenced(ts: Seq<QuestTask>, key: Seq<char>, n: nat, i: int, w: WallMark)
    requires
        0 <= i < n <= ts.len(),
        obj_quest_walls(ts[i], key, ts[i].objectives@.len()).contains(w),
    ensures
        quest_walls(ts, key, n).contains(w),
    decreases n,
{
    let rest = quest_walls(ts, key, (n - 1) as nat);
    let own = obj_quest_walls(ts[n - 1], key, ts[n - 1].objectives@.len());
    if i == n - 1 {
        let q = choose|q: int| 0 <= q < own.len() && own[q] == w;
        assert(quest_walls(ts, key, n)[rest.len() + q] == w);
    } else {
        task_is_fenced(ts, key, (n - 1) as nat, i, w);
        let q = choose|q: int| 0 <= q < rest.len() && rest[q] == w;
        assert(quest_walls(ts, key, n)[q] == w);
    }
}

/// All walls of a map are those of its typed zones, and then those of its tasks.
pub proof fn walls_are_those_of_zones_and_tasks(s: PoiSources, key: Seq<char>)
    ensures
        s.tasks is None ==> s.all_walls(key) == s.typed_walls(),
        s.tasks is Some ==> s.all_walls(key) == s.typed_walls() + quest_walls(s.tasks->0@, key, s.tasks->0@.len()),
        s.gamedata is None ==> s.typed_walls().len() == 0,
{
    if s.tasks is None {
        assert(s.all_walls(key) =~= s.typed_walls());
    }
}

/// A marker of a typed extract has its faction and its tint, and is inactive where the extract is.
pub proof fn typed_extracts_are_tinted_by_faction(v: Seq<GdExfil>, exs: Seq<ExtractDev>, i: int)
    requires
        0 <= i < v.len(),
    ensures
        ({
            let m = exfil_marks(v, exs)[i];
            let f = v[i].faction.text@;
            &&& m.faction == Some(f)
            &&& m.inactive == !v[i].active
            &&& f == "scav"@ ==> m.tint == Some(Tint::Scav)
            &&& f == "shared"@ ==> m.tint == Some(Tint::Shared)
            &&& f == "secret"@ ==> m.tint == Some(Tint::Secret)
            &&& f != "scav"@ && f != "shared"@ && f != "secret"@ ==> m.tint is None
        }),
{
    reveal_strlit("scav");
    reveal_strlit("shared");
    reveal_strlit("secret");
    assert("scav"@.len() == 4 && "shared"@.len() == 6 && "secret"@.len() == 6);
    assert("shared"@[1] == 'h' && "secret"@[1] == 'e');
}

/// A marker of a typed zone stands at its place and is inactive where the zone is.
pub proof fn inactive_zones_are_marked_so(kind: ZoneKind, v: Seq<GdZone>, i: int)
    requires
        0 <= i < v.len(),
    ensures
        zone_marks(kind, v).len() == v.len(),
        zone_marks(kind, v)[i].pos == v[i].pos,
        zone_marks(kind, v)[i].inactive == !v[i].active,
        zone_marks(ZoneKind::Minefield, v)[i].layer == PoiLayer::Minefield,
        zone_marks(ZoneKind::SniperZone, v)[i].layer == PoiLayer::SniperZone,
        zone_marks(ZoneKind::DirectionalMine, v)[i].layer == PoiLayer::Hazard,
        zone_marks(ZoneKind::Trader, v)[i].layer == PoiLayer::Hazard,
        zone_marks(ZoneKind::QuestTrigger, v)[i].layer == PoiLayer::Quest,
{
}

/// Hoods and lamps are no extracts, sandbags no guns, and guns go by the names of their parts and
/// models, in large or small letters.
pub proof fn names_tell_guns_and_lamps_apart(name: Seq<char>)
    ensures
        ({
            let s = ascii_lowered(name);
            &&& junk_extract(name) <==> holds_text(s, "extractor_"@) || holds_text(s, "exit_light"@)
            &&& holds_text(s, "sandbag"@) ==> !gun_name(name)
            &&& !holds_text(s, "sandbag"@) && (holds_text(s, "reciever"@) || holds_text(s, "receiver"@)) ==> gun_name(
                name,
            )
            &&& !holds_text(s, "sandbag"@) && (holds_text(s, "dshk"@) || holds_text(s, "nsv"@) || holds_text(
                s,
                "kord"@,
            ) || holds_text(s, "utes"@) || holds_text(s, "pkm"@) || holds_text(s, "pulemet"@)) ==> gun_name(name)
            &&& gun_name(name) ==> holds_text(s, "reciever"@) || holds_text(s, "receiver"@) || holds_text(s, "dshk"@)
                || holds_text(s, "nsv"@) || holds_text(s, "kord"@) || holds_text(s, "utes"@) || holds_text(s, "pkm"@)
                || holds_text(s, "pulemet"@)
        }),
{
}

/// A map goes by its own key where it has one. Else it goes by the name of its dataset without the
/// version at its end, and by the whole name where there is none.
pub proof fn maps_go_by_their_key_without_version(map: Seq<char>, base: Seq<char>, digits: Seq<char>, key: Seq<char>)
    requires
        digits.len() > 0,
        forall|j: int| 0 <= j < digits.len() ==> '0' <= #[trigger] digits[j] <= '9',
    ensures
        map.len() > 0 ==> (map_key_text(map, base, key) <==> key == map),
        map_key_text(Seq::empty(), base + seq!['_', 'v'] + digits, base),
        (forall|k: int| !version_at(base, k)) ==> map_key_text(Seq::empty(), base, base),
{
    let d = base + seq!['_', 'v'] + digits;
    let k = base.len() as int;
    assert(d[k] == '_' && d[k + 1] == 'v');
    assert forall|j: int| k + 2 <= j < d.len() implies 48 <= #[trigger] d[j] as u32 <= 57 by {
        assert(d[j] == digits[j - k - 2]);
    }
    assert(version_at(d, k));
    assert(d.take(k) =~= base);
}

/// How layers are told apart: bosses have the largest markers, extracts are the greenest, tasks
/// the bluest, players red and scavengers yellow; loot lies lowest, and mines look like hazards.
pub proof fn layers_look_different(l: PoiLayer)
    ensures
        l is Boss || look(l).radius.lt(look(PoiLayer::Boss).radius),
        l is Boss || look(l).lift.lt(look(PoiLayer::Boss).lift),
        l is Boss || l is Quest || look(l).color.b.lt(look(PoiLayer::Quest).color.b),
        look(PoiLayer::Boss).color.r == look(PoiLayer::Boss).color.b,
        look(PoiLayer::Boss).color.g == look(PoiLayer::PmcSpawn).color.g,
        l is Extract || look(l).color.g.le(look(PoiLayer::Extract).color.g),
        look(PoiLayer::Extract).color.r.lt(look(PoiLayer::Extract).color.b),
        look(PoiLayer::PmcSpawn).color.g.lt(look(PoiLayer::PmcSpawn).color.r),
        look(PoiLayer::PmcSpawn).color.b.lt(look(PoiLayer::PmcSpawn).color.g),
        look(PoiLayer::ScavSpawn).color.b.lt(look(PoiLayer::ScavSpawn).color.g),
        look(PoiLayer::ScavSpawn).color.g.lt(look(PoiLayer::ScavSpawn).color.r),
        look(PoiLayer::PmcSpawn).color.g.lt(look(PoiLayer::Lock).color.g),
        look(PoiLayer::Lock).color.g.lt(look(PoiLayer::ScavSpawn).color.g),
        look(PoiLayer::ScavSpawn).radius.lt(look(PoiLayer::PmcSpawn).radius),
        look(PoiLayer::Extract).radius.lt(look(PoiLayer::Boss).radius),
        look(PoiLayer::Transit).radius.lt(look(PoiLayer::Extract).radius),
        look(PoiLayer::Transit).color.r.lt(look(PoiLayer::Transit).color.b),
        look(PoiLayer::Transit).color.b.lt(look(PoiLayer::Transit).color.g),
        look(PoiLayer::Switch).color.g == look(PoiLayer::Interactable).color.g,
        look(PoiLayer::Switch).color.b == look(PoiLayer::Interactable).color.b,
        look(PoiLayer::Switch).color.r.lt(look(PoiLayer::Interactable).color.r),
        look(PoiLayer::Interactable).radius.lt(look(PoiLayer::Door).radius),
        look(PoiLayer::Door).radius.lt(look(PoiLayer::Switch).radius),
        look(PoiLayer::Door).color.b.lt(look(PoiLayer::Door).color.g),
        look(PoiLayer::Door).color.g.lt(look(PoiLayer::Door).color.r),
        look(PoiLayer::LooseLoot).lift.le(look(l).lift),
        look(PoiLayer::LooseLoot).radius.le(look(l).radius),
        look(PoiLayer::Stationary).color.r.lt(look(PoiLayer::LooseLoot).color.r),
        look(PoiLayer::Minefield).color == look(PoiLayer::Hazard).color,
        look(PoiLayer::Minefield).radius.lt(look(PoiLayer::Hazard).radius),
        look(PoiLayer::Minefield).radius == look(PoiLayer::SniperZone).radius,
        look(PoiLayer::Minefield).lift.lt(look(PoiLayer::SniperZone).lift),
        look(PoiLayer::Minefield).color.g.lt(look(PoiLayer::SniperZone).color.g),
{
}

} // verus!
