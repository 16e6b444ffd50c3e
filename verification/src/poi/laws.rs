//! What is shown on a map, said of the lists that it comes from.
use crate::f32bits::float;
use crate::gpu::materials::V3;
use crate::poi::assemble::{sem_marks, PoiSources};
use crate::poi::card::{hazard_card, quest_card};
use crate::poi::layer::{look, PoiLayer};
use crate::poi::marker::{
    extract_marks, has_twin, hazard_marks, lock_marks, loose_mark, loose_marks, mark, node_marks,
    stationary_marks, switch_marks, transit_marks, within, Mark, WallMark,
};
use crate::poi::quests::{
    obj_quest_marks, objs_here, quest_marks, quests_here, zone_quest_marks, zone_quest_walls,
    zones_here, EntryView, ObjView, ZoneView,
};
use crate::poi::records::{
    GdDoor, GdExfil, GdLoose, GdStationary, GdZone, Hazard, Lock, Loose, Node, QuestObjective,
    QuestTask, QuestZone, Stationary, Switch, Transit,
};
use crate::text::texts;
use crate::poi::typed::{
    door_marks, exfil_marks, gd_stationary_marks, loose_point_marks, zone_marks, ZoneKind,
};
use vstd::prelude::*;

verus! {

/// Where the markers of one layer stand, in their order.
pub open spec fn places_on(ms: Seq<Mark>, l: PoiLayer) -> Seq<V3>
    decreases ms.len(),
{
    if ms.len() == 0 {
        Seq::empty()
    } else if ms.last().layer == l {
        places_on(ms.drop_last(), l).push(ms.last().pos)
    } else {
        places_on(ms.drop_last(), l)
    }
}

proof fn places_on_joined(a: Seq<Mark>, b: Seq<Mark>, l: PoiLayer)
    ensures
        places_on(a + b, l) == places_on(a, l) + places_on(b, l),
    decreases b.len(),
{
    if b.len() == 0 {
        assert(a + b =~= a);
        assert(places_on(a, l) + places_on(b, l) =~= places_on(a, l));
    } else {
        places_on_joined(a, b.drop_last(), l);
        assert((a + b).drop_last() =~= a + b.drop_last());
        assert((a + b).last() == b.last());
        assert(places_on(a + b, l) =~= places_on(a, l) + places_on(b, l));
    }
}

/// The places of markers that are all on one layer.
pub open spec fn only_on(k: PoiLayer, at: Seq<V3>, l: PoiLayer) -> Seq<V3> {
    if l == k {
        at
    } else {
        Seq::empty()
    }
}

proof fn places_of_one_layer(ms: Seq<Mark>, k: PoiLayer, at: Seq<V3>, l: PoiLayer)
    requires
        ms.len() == at.len(),
        forall|i: int| 0 <= i < ms.len() ==> (#[trigger] ms[i]).layer == k && ms[i].pos == at[i],
    ensures
        places_on(ms, l) == only_on(k, at, l),
    decreases ms.len(),
{
    if ms.len() > 0 {
        places_of_one_layer(ms.drop_last(), k, at.drop_last(), l);
        assert(at.drop_last().push(at.last()) =~= at);
        assert(ms.last() == ms[ms.len() - 1]);
        assert(at.last() == at[at.len() - 1]);
    } else {
        assert(at =~= Seq::empty());
    }
}

/// The markers of hazards stand where no typed zone covers them.
pub proof fn uncovered_hazards_are_marked(v: Seq<Hazard>, n: nat)
    requires
        n <= v.len(),
    ensures
        hazard_marks(v, n) == v.take(n as int).filter(|h: Hazard| !h.covered).map_values(
            |h: Hazard| mark(PoiLayer::Hazard, h.pos, hazard_card(h)),
        ),
    decreases n,
{
    reveal(Seq::filter);
    let pred = |h: Hazard| !h.covered;
    if n > 0 {
        uncovered_hazards_are_marked(v, (n - 1) as nat);
        assert(v.take(n as int).drop_last() =~= v.take(n - 1));
    } else {
        assert(v.take(0) =~= Seq::empty());
    }
    assert(hazard_marks(v, n) =~= v.take(n as int).filter(pred).map_values(
        |h: Hazard| mark(PoiLayer::Hazard, h.pos, hazard_card(h)),
    ));
}

/// Whether a typed loot point stands less than two and a half metres from a loose item.
pub open spec fn stands_for(lo: Loose) -> bool {
    exists|j: int| 0 <= j < lo.typed_dist2@.len() && (#[trigger] lo.typed_dist2@[j]).lt(float(0x40c8_0000))
}

/// The markers of loose items are those that no typed loot point stands for.
pub proof fn loose_items_without_a_typed_point_are_marked(v: Seq<Loose>, n: nat)
    requires
        n <= v.len(),
    ensures
        loose_marks(v, n) == v.take(n as int).filter(|lo: Loose| !stands_for(lo)).map_values(
            |lo: Loose| loose_mark(lo),
        ),
    decreases n,
{
    reveal(Seq::filter);
    let pred = |lo: Loose| !stands_for(lo);
    if n > 0 {
        loose_items_without_a_typed_point_are_marked(v, (n - 1) as nat);
        assert(v.take(n as int).drop_last() =~= v.take(n - 1));
        let lo = v[n - 1];
        if has_twin(lo) {
            let j = choose|j: int| #[trigger] within(lo.typed_dist2@, j, 0x40c8_0000);
            assert(lo.typed_dist2@[j].lt(float(0x40c8_0000)));
        }
        if stands_for(lo) {
            let j = choose|j: int|
                0 <= j < lo.typed_dist2@.len() && (#[trigger] lo.typed_dist2@[j]).lt(float(0x40c8_0000));
            assert(within(lo.typed_dist2@, j, 0x40c8_0000));
        }
    } else {
        assert(v.take(0) =~= Seq::empty());
    }
    assert(loose_marks(v, n) =~= v.take(n as int).filter(pred).map_values(|lo: Loose| loose_mark(lo)));
}

/// A loose item is filtered by its price, nothing where it has none, and shows its own icon.
pub proof fn loose_items_carry_their_price(lo: Loose)
    ensures
        loose_mark(lo).layer == PoiLayer::LooseLoot,
        loose_mark(lo).pos == lo.pos,
        lo.pr matches Some(p) ==> loose_mark(lo).value == Some(p.roubles),
        lo.pr is None ==> loose_mark(lo).value == Some(0i64),
        lo.n@.len() > 0 ==> loose_mark(lo).icon == Some(lo.n@) && loose_mark(lo).card.title == lo.n@,
        lo.n@.len() == 0 ==> loose_mark(lo).icon is None && loose_mark(lo).card.title == lo.s@,
        !loose_mark(lo).inactive,
{
}

/// The places of the markers that come from the community's data, layer by layer: spawns of each kind
/// where their own list has them, and likewise everything else.
pub proof fn listed_things_stand_on_their_layers(s: PoiSources, l: PoiLayer)
    requires
        s.loot is Some,
    ensures
        ({
            let d = s.loot->0;
            let p = places_on(s.loot_marks(), l);
            &&& l == PoiLayer::PmcSpawn ==> p == d.pmc_nodes@.map_values(|x: Node| x.pos)
            &&& l == PoiLayer::ScavSpawn ==> p == d.scav_nodes@.map_values(|x: Node| x.pos)
            &&& l == PoiLayer::Boss ==> p == d.boss_nodes@.map_values(|x: Node| x.pos)
            &&& l == PoiLayer::Lock ==> p == d.locks@.map_values(|x: Lock| x.pos)
            &&& l == PoiLayer::Switch ==> p == d.switches@.map_values(|x: Switch| x.pos)
            &&& l == PoiLayer::Transit ==> p == d.transits@.map_values(|x: Transit| x.pos)
            &&& l == PoiLayer::Hazard ==> p == d.hazards@.filter(|x: Hazard| !x.covered).map_values(
                |x: Hazard| x.pos,
            )
            &&& l == PoiLayer::Stationary ==> p == d.stationary@.map_values(|x: Stationary| x.pos)
            &&& l == PoiLayer::LooseLoot ==> p == d.loose@.filter(|x: Loose| !stands_for(x)).map_values(
                |x: Loose| x.pos,
            )
            &&& l == PoiLayer::Extract ==> p == (if d.extracts_dev@.len() > 0 && !(s.gamedata is Some
                && s.gamedata->0.exfils@.len() > 0) {
                extract_marks(d.extracts_dev@).map_values(|x: Mark| x.pos)
            } else {
                Seq::empty()
            })
            &&& l == PoiLayer::Door || l == PoiLayer::Interactable || l == PoiLayer::Quest || l
                == PoiLayer::Minefield || l == PoiLayer::SniperZone ==> p.len() == 0
        }),
{
    let d = s.loot->0;
    let pmc = d.pmc_nodes@.map_values(|x: Node| x.pos);
    let scav = d.scav_nodes@.map_values(|x: Node| x.pos);
    let boss = d.boss_nodes@.map_values(|x: Node| x.pos);
    let lock = d.locks@.map_values(|x: Lock| x.pos);
    let switch = d.switches@.map_values(|x: Switch| x.pos);
    let transit = d.transits@.map_values(|x: Transit| x.pos);
    let hazard = d.hazards@.filter(|x: Hazard| !x.covered).map_values(|x: Hazard| x.pos);
    let gun = d.stationary@.map_values(|x: Stationary| x.pos);
    let loose = d.loose@.filter(|x: Loose| !stands_for(x)).map_values(|x: Loose| x.pos);
    let em = if s.listed_extracts() {
        extract_marks(d.extracts_dev@)
    } else {
        Seq::empty()
    };
    let extract = em.map_values(|x: Mark| x.pos);
    uncovered_hazards_are_marked(d.hazards@, d.hazards@.len());
    assert(d.hazards@.take(d.hazards@.len() as int) =~= d.hazards@);
    loose_items_without_a_typed_point_are_marked(d.loose@, d.loose@.len());
    assert(d.loose@.take(d.loose@.len() as int) =~= d.loose@);
    let m0 = node_marks(PoiLayer::PmcSpawn, d.pmc_nodes@);
    let m1 = node_marks(PoiLayer::ScavSpawn, d.scav_nodes@);
    let m2 = node_marks(PoiLayer::Boss, d.boss_nodes@);
    let m3 = lock_marks(d.locks@);
    let m4 = switch_marks(d.switches@);
    let m5 = transit_marks(d.transits@);
    let m6 = hazard_marks(d.hazards@, d.hazards@.len());
    let m7 = stationary_marks(d.stationary@);
    let m8 = loose_marks(d.loose@, d.loose@.len());
    places_of_one_layer(m0, PoiLayer::PmcSpawn, pmc, l);
    places_of_one_layer(m1, PoiLayer::ScavSpawn, scav, l);
    places_of_one_layer(m2, PoiLayer::Boss, boss, l);
    places_of_one_layer(m3, PoiLayer::Lock, lock, l);
    places_of_one_layer(m4, PoiLayer::Switch, switch, l);
    places_of_one_layer(m5, PoiLayer::Transit, transit, l);
    places_of_one_layer(m6, PoiLayer::Hazard, hazard, l);
    places_of_one_layer(m7, PoiLayer::Stationary, gun, l);
    places_of_one_layer(m8, PoiLayer::LooseLoot, loose, l);
    places_of_one_layer(em, PoiLayer::Extract, extract, l);
    places_on_joined(m0, m1, l);
    places_on_joined(m0 + m1, m2, l);
    places_on_joined(m0 + m1 + m2, m3, l);
    places_on_joined(m0 + m1 + m2 + m3, m4, l);
    places_on_joined(m0 + m1 + m2 + m3 + m4, m5, l);
    places_on_joined(m0 + m1 + m2 + m3 + m4 + m5, m6, l);
    places_on_joined(m0 + m1 + m2 + m3 + m4 + m5 + m6, m7, l);
    places_on_joined(m0 + m1 + m2 + m3 + m4 + m5 + m6 + m7, m8, l);
    places_on_joined(m0 + m1 + m2 + m3 + m4 + m5 + m6 + m7 + m8, em, l);
    assert(s.loot_marks() == m0 + m1 + m2 + m3 + m4 + m5 + m6 + m7 + m8 + em);
    let p = places_on(s.loot_marks(), l);
    assert(p == only_on(PoiLayer::PmcSpawn, pmc, l) + only_on(PoiLayer::ScavSpawn, scav, l) + only_on(
        PoiLayer::Boss,
        boss,
        l,
    ) + only_on(PoiLayer::Lock, lock, l) + only_on(PoiLayer::Switch, switch, l) + only_on(
        PoiLayer::Transit,
        transit,
        l,
    ) + only_on(PoiLayer::Hazard, hazard, l) + only_on(PoiLayer::Stationary, gun, l) + only_on(
        PoiLayer::LooseLoot,
        loose,
        l,
    ) + only_on(PoiLayer::Extract, extract, l));
    match l {
        PoiLayer::PmcSpawn => assert(p =~= pmc),
        PoiLayer::ScavSpawn => assert(p =~= scav),
        PoiLayer::Boss => assert(p =~= boss),
        PoiLayer::Lock => assert(p =~= lock),
        PoiLayer::Switch => assert(p =~= switch),
        PoiLayer::Transit => assert(p =~= transit),
        PoiLayer::Hazard => assert(p =~= hazard),
        PoiLayer::Stationary => assert(p =~= gun),
        PoiLayer::LooseLoot => assert(p =~= loose),
        PoiLayer::Extract => {
            assert(p =~= extract);
            if !s.listed_extracts() {
                assert(extract =~= Seq::empty());
            }
        },
        _ => assert(p =~= Seq::empty()),
    }
}

/// The places of the markers that come from the typed game data, layer by layer.
pub proof fn typed_things_stand_on_their_layers(s: PoiSources, l: PoiLayer)
    requires
        s.gamedata is Some,
    ensures
        ({
            let g = s.gamedata->0;
            let p = places_on(s.typed_marks(), l);
            &&& l == PoiLayer::Extract ==> p == g.exfils@.map_values(|x: GdExfil| x.pos)
            &&& l == PoiLayer::Minefield ==> p == g.minefields@.map_values(|x: GdZone| x.pos)
            &&& l == PoiLayer::SniperZone ==> p == g.sniper_zones@.map_values(|x: GdZone| x.pos)
            &&& l == PoiLayer::Hazard ==> p == g.mines_directional@.map_values(|x: GdZone| x.pos)
                + g.trader_zones@.map_values(|x: GdZone| x.pos)
            &&& l == PoiLayer::Quest ==> p == g.quest_triggers@.map_values(|x: GdZone| x.pos)
            &&& l == PoiLayer::LooseLoot ==> p == g.loose_points@.map_values(|x: GdLoose| x.pos)
            &&& l == PoiLayer::Door ==> p == g.doors@.map_values(|x: GdDoor| x.pos)
            &&& l == PoiLayer::Stationary ==> p == (if s.loot is Some && s.loot->0.stationary@.len() > 0 {
                Seq::empty()
            } else {
                g.stationary@.map_values(|x: GdStationary| x.pos)
            })
            &&& l == PoiLayer::PmcSpawn || l == PoiLayer::ScavSpawn || l == PoiLayer::Boss || l
                == PoiLayer::Lock || l == PoiLayer::Switch || l == PoiLayer::Transit || l
                == PoiLayer::Interactable ==> p.len() == 0
        }),
{
    let g = s.gamedata->0;
    let exfil = g.exfils@.map_values(|x: GdExfil| x.pos);
    let mine = g.minefields@.map_values(|x: GdZone| x.pos);
    let sniper = g.sniper_zones@.map_values(|x: GdZone| x.pos);
    let dir = g.mines_directional@.map_values(|x: GdZone| x.pos);
    let trader = g.trader_zones@.map_values(|x: GdZone| x.pos);
    let trigger = g.quest_triggers@.map_values(|x: GdZone| x.pos);
    let loose = g.loose_points@.map_values(|x: GdLoose| x.pos);
    let door = g.doors@.map_values(|x: GdDoor| x.pos);
    let m0 = exfil_marks(g.exfils@, s.extracts());
    let m1 = zone_marks(ZoneKind::Minefield, g.minefields@);
    let m2 = zone_marks(ZoneKind::SniperZone, g.sniper_zones@);
    let m3 = zone_marks(ZoneKind::DirectionalMine, g.mines_directional@);
    let m4 = zone_marks(ZoneKind::Trader, g.trader_zones@);
    let m5 = zone_marks(ZoneKind::QuestTrigger, g.quest_triggers@);
    let m6 = loose_point_marks(g.loose_points@);
    let m7 = door_marks(g.doors@, s.locks());
    let m8 = if s.typed_stationary() {
        gd_stationary_marks(g.stationary@)
    } else {
        Seq::empty()
    };
    let gun = m8.map_values(|x: Mark| x.pos);
    places_of_one_layer(m0, PoiLayer::Extract, exfil, l);
    places_of_one_layer(m1, PoiLayer::Minefield, mine, l);
    places_of_one_layer(m2, PoiLayer::SniperZone, sniper, l);
    places_of_one_layer(m3, PoiLayer::Hazard, dir, l);
    places_of_one_layer(m4, PoiLayer::Hazard, trader, l);
    places_of_one_layer(m5, PoiLayer::Quest, trigger, l);
    places_of_one_layer(m6, PoiLayer::LooseLoot, loose, l);
    places_of_one_layer(m7, PoiLayer::Door, door, l);
    places_of_one_layer(m8, PoiLayer::Stationary, gun, l);
    places_on_joined(m0, m1, l);
    places_on_joined(m0 + m1, m2, l);
    places_on_joined(m0 + m1 + m2, m3, l);
    places_on_joined(m0 + m1 + m2 + m3, m4, l);
    places_on_joined(m0 + m1 + m2 + m3 + m4, m5, l);
    places_on_joined(m0 + m1 + m2 + m3 + m4 + m5, m6, l);
    places_on_joined(m0 + m1 + m2 + m3 + m4 + m5 + m6, m7, l);
    places_on_joined(m0 + m1 + m2 + m3 + m4 + m5 + m6 + m7, m8, l);
    assert(s.typed_marks() == m0 + m1 + m2 + m3 + m4 + m5 + m6 + m7 + m8);
    let p = places_on(s.typed_marks(), l);
    assert(p == only_on(PoiLayer::Extract, exfil, l) + only_on(PoiLayer::Minefield, mine, l) + only_on(
        PoiLayer::SniperZone,
        sniper,
        l,
    ) + only_on(PoiLayer::Hazard, dir, l) + only_on(PoiLayer::Hazard, trader, l) + only_on(
        PoiLayer::Quest,
        trigger,
        l,
    ) + only_on(PoiLayer::LooseLoot, loose, l) + only_on(PoiLayer::Door, door, l) + only_on(
        PoiLayer::Stationary,
        gun,
        l,
    ));
    match l {
        PoiLayer::Extract => assert(p =~= exfil),
        PoiLayer::Minefield => assert(p =~= mine),
        PoiLayer::SniperZone => assert(p =~= sniper),
        PoiLayer::Hazard => assert(p =~= dir + trader),
        PoiLayer::Quest => assert(p =~= trigger),
        PoiLayer::LooseLoot => assert(p =~= loose),
        PoiLayer::Door => assert(p =~= door),
        PoiLayer::Stationary => {
            assert(p =~= gun);
            if s.loot is Some && s.loot->0.stationary@.len() > 0 {
                assert(gun =~= Seq::empty());
            } else {
                assert(gun =~= g.stationary@.map_values(|x: GdStationary| x.pos));
            }
        },
        _ => assert(p =~= Seq::empty()),
    }
}

proof fn quest_marks_are_on_their_layer(ts: Seq<QuestTask>, key: Seq<char>, n: nat)
    requires
        n <= ts.len(),
    ensures
        forall|i: int| 0 <= i < quest_marks(ts, key, n).len() ==> (#[trigger] quest_marks(ts, key, n)[i]).layer
            == PoiLayer::Quest,
    decreases n,
{
    if n > 0 {
        quest_marks_are_on_their_layer(ts, key, (n - 1) as nat);
        objective_marks_are_on_their_layer(ts[n - 1], key, ts[n - 1].objectives@.len());
    }
}

proof fn objective_marks_are_on_their_layer(t: QuestTask, key: Seq<char>, n: nat)
    requires
        n <= t.objectives@.len(),
    ensures
        forall|i: int|
            0 <= i < obj_quest_marks(t, key, n).len() ==> (#[trigger] obj_quest_marks(t, key, n)[i]).layer
                == PoiLayer::Quest,
    decreases n,
{
    if n > 0 {
        objective_marks_are_on_their_layer(t, key, (n - 1) as nat);
        let o = t.objectives@[n - 1];
        zones_of_an_objective_are_marked(t, o, key, o.zones@.len());
    }
}

/// The zones of an objective that are marked and listed are those on the map that have a place there,
/// each at its own place and with the id of its task; those with at least three corners get a wall.
pub proof fn zones_of_an_objective_are_marked(t: QuestTask, o: QuestObjective, key: Seq<char>, n: nat)
    requires
        n <= o.zones@.len(),
    ensures
        zone_quest_marks(t, o, key, n) == o.zones@.take(n as int).filter(
            |z: QuestZone| z.pos is Some && z.map@ == key,
        ).map_values(
            |z: QuestZone|
                Mark { task: Some(t.id@), ..mark(PoiLayer::Quest, z.pos->0, quest_card(t, o)) },
        ),
        zone_quest_walls(t, o, key, n) == o.zones@.take(n as int).filter(
            |z: QuestZone| z.pos is Some && z.map@ == key && z.outline@.len() >= 3,
        ).map_values(
            |z: QuestZone|
                WallMark {
                    layer: PoiLayer::Quest,
                    outline: z.outline@,
                    color: look(PoiLayer::Quest).color,
                    active: true,
                    task: Some(t.id@),
                },
        ),
        zones_here(o, key, n) == o.zones@.take(n as int).filter(
            |z: QuestZone| z.pos is Some && z.map@ == key,
        ).map_values(|z: QuestZone| ZoneView { pos: z.pos->0, outline: z.outline@, top: z.top }),
    decreases n,
{
    reveal(Seq::filter);
    let here = |z: QuestZone| z.pos is Some && z.map@ == key;
    let fenced = |z: QuestZone| z.pos is Some && z.map@ == key && z.outline@.len() >= 3;
    let s = o.zones@.take(n as int);
    if n > 0 {
        zones_of_an_objective_are_marked(t, o, key, (n - 1) as nat);
        assert(s.drop_last() =~= o.zones@.take(n - 1));
    } else {
        assert(s =~= Seq::empty());
    }
    assert(zone_quest_marks(t, o, key, n) =~= s.filter(here).map_values(
        |z: QuestZone| Mark { task: Some(t.id@), ..mark(PoiLayer::Quest, z.pos->0, quest_card(t, o)) },
    ));
    assert(zone_quest_walls(t, o, key, n) =~= s.filter(fenced).map_values(
        |z: QuestZone|
            WallMark {
                layer: PoiLayer::Quest,
                outline: z.outline@,
                color: look(PoiLayer::Quest).color,
                active: true,
                task: Some(t.id@),
            },
    ));
    assert(zones_here(o, key, n) =~= s.filter(here).map_values(
        |z: QuestZone| ZoneView { pos: z.pos->0, outline: z.outline@, top: z.top },
    ));
}

/// Whether an objective has a zone with a place on the map.
pub open spec fn is_on_map(o: QuestObjective, key: Seq<char>) -> bool {
    exists|k: int| 0 <= k < o.zones@.len() && (#[trigger] o.zones@[k]).map@ == key && o.zones@[k].pos is Some
}

/// Whether a task has an objective with a zone on the map.
pub open spec fn leads_to_map(t: QuestTask, key: Seq<char>) -> bool {
    exists|j: int| 0 <= j < t.objectives@.len() && is_on_map(#[trigger] t.objectives@[j], key)
}

proof fn zones_of_an_objective_on_map(o: QuestObjective, key: Seq<char>, n: nat)
    requires
        n <= o.zones@.len(),
    ensures
        zones_here(o, key, n).len() > 0 <==> exists|k: int|
            0 <= k < n && (#[trigger] o.zones@[k]).map@ == key && o.zones@[k].pos is Some,
    decreases n,
{
    if n > 0 {
        zones_of_an_objective_on_map(o, key, (n - 1) as nat);
        let z = o.zones@[n - 1];
        if z.map@ == key && z.pos is Some {
            assert(zones_here(o, key, n).len() > 0);
        }
    }
}

/// The objectives of a task that are listed are those with a zone on the map, in their order.
pub proof fn objectives_on_the_map_are_listed(t: QuestTask, key: Seq<char>, n: nat)
    requires
        n <= t.objectives@.len(),
    ensures
        objs_here(t, key, n) == t.objectives@.take(n as int).filter(
            |o: QuestObjective| is_on_map(o, key),
        ).map_values(
            |o: QuestObjective| ObjView { desc: o.desc@, zones: zones_here(o, key, o.zones@.len()) },
        ),
    decreases n,
{
    reveal(Seq::filter);
    let s = t.objectives@.take(n as int);
    let pred = |o: QuestObjective| is_on_map(o, key);
    if n > 0 {
        objectives_on_the_map_are_listed(t, key, (n - 1) as nat);
        assert(s.drop_last() =~= t.objectives@.take(n - 1));
        let o = t.objectives@[n - 1];
        zones_of_an_objective_on_map(o, key, o.zones@.len());
        assert(s.last() == o);
        assert(pred(o) == (zones_here(o, key, o.zones@.len()).len() > 0));
    } else {
        assert(s =~= Seq::empty());
    }
    assert(objs_here(t, key, n) =~= s.filter(pred).map_values(
        |o: QuestObjective| ObjView { desc: o.desc@, zones: zones_here(o, key, o.zones@.len()) },
    ));
}

proof fn objectives_of_a_task_on_map(t: QuestTask, key: Seq<char>, n: nat)
    requires
        n <= t.objectives@.len(),
    ensures
        objs_here(t, key, n).len() > 0 <==> exists|j: int|
            0 <= j < n && is_on_map(#[trigger] t.objectives@[j], key),
    decreases n,
{
    if n > 0 {
        objectives_of_a_task_on_map(t, key, (n - 1) as nat);
        let o = t.objectives@[n - 1];
        zones_of_an_objective_on_map(o, key, o.zones@.len());
        if is_on_map(o, key) {
            assert(objs_here(t, key, n).len() > 0);
        }
    }
}

/// The tasks that are listed are those that lead to the map, in their order, each under its own names.
pub proof fn tasks_on_the_map_are_listed(ts: Seq<QuestTask>, key: Seq<char>, n: nat)
    requires
        n <= ts.len(),
    ensures
        quests_here(ts, key, n) == ts.take(n as int).filter(|t: QuestTask| leads_to_map(t, key)).map_values(
            |t: QuestTask|
                EntryView {
                    id: t.id@,
                    name: t.name@,
                    trader: t.trader@,
                    min_level: t.min_level,
                    kappa: t.kappa,
                    lk: t.lk,
                    requires_tasks: t.requires_tasks@.map_values(|x: String| x@),
                    objectives: objs_here(t, key, t.objectives@.len()),
                },
        ),
    decreases n,
{
    reveal(Seq::filter);
    let s = ts.take(n as int);
    let pred = |t: QuestTask| leads_to_map(t, key);
    if n > 0 {
        tasks_on_the_map_are_listed(ts, key, (n - 1) as nat);
        assert(s.drop_last() =~= ts.take(n - 1));
        let t = ts[n - 1];
        objectives_of_a_task_on_map(t, key, t.objectives@.len());
        assert(s.last() == t);
        assert(pred(t) == (objs_here(t, key, t.objectives@.len()).len() > 0));
        assert(texts(t.requires_tasks@) =~= t.requires_tasks@.map_values(|x: String| x@));
    } else {
        assert(s =~= Seq::empty());
    }
    assert(quests_here(ts, key, n) =~= s.filter(pred).map_values(
        |t: QuestTask|
            EntryView {
                id: t.id@,
                name: t.name@,
                trader: t.trader@,
                min_level: t.min_level,
                kappa: t.kappa,
                lk: t.lk,
                requires_tasks: t.requires_tasks@.map_values(|x: String| x@),
                objectives: objs_here(t, key, t.objectives@.len()),
            },
    ));
}

/// Every zone of every task on the map has its marker: at its place, on the layer of tasks, with the
/// id of its task.
pub proof fn every_zone_on_the_map_is_marked(ts: Seq<QuestTask>, key: Seq<char>)
    ensures
        forall|i: int, j: int, k: int|
            0 <= i < ts.len() && 0 <= j < ts[i].objectives@.len() && 0 <= k
                < ts[i].objectives@[j].zones@.len() && ts[i].objectives@[j].zones@[k].map@ == key
                && ts[i].objectives@[j].zones@[k].pos is Some ==> quest_marks(ts, key, ts.len()).contains(
                Mark {
                    task: Some(ts[i].id@),
                    ..mark(
                        PoiLayer::Quest,
                        (#[trigger] ts[i].objectives@[j].zones@[k]).pos->0,
                        quest_card(ts[i], ts[i].objectives@[j]),
                    )
                },
            ),
{
    assert forall|i: int, j: int, k: int|
        0 <= i < ts.len() && 0 <= j < ts[i].objectives@.len() && 0 <= k < ts[i].objectives@[j].zones@.len()
            && ts[i].objectives@[j].zones@[k].map@ == key && ts[i].objectives@[j].zones@[k].pos
            is Some implies quest_marks(ts, key, ts.len()).contains(
        Mark {
            task: Some(ts[i].id@),
            ..mark(
                PoiLayer::Quest,
                (#[trigger] ts[i].objectives@[j].zones@[k]).pos->0,
                quest_card(ts[i], ts[i].objectives@[j]),
            )
        },
    ) by {
        let t = ts[i];
        let o = t.objectives@[j];
        let m = Mark { task: Some(t.id@), ..mark(PoiLayer::Quest, o.zones@[k].pos->0, quest_card(t, o)) };
        zone_is_marked(t, o, key, o.zones@.len(), k);
        objective_is_marked(t, key, t.objectives@.len(), j, m);
        task_is_marked(ts, key, ts.len(), i, m);
    }
}

proof fn zone_is_marked(t: QuestTask, o: QuestObjective, key: Seq<char>, n: nat, k: int)
    requires
        0 <= k < n <= o.zones@.len(),
        o.zones@[k].map@ == key,
        o.zones@[k].pos is Some,
    ensures
        zone_quest_marks(t, o, key, n).contains(
            (Mark { task: Some(t.id@), ..mark(PoiLayer::Quest, o.zones@[k].pos->0, quest_card(t, o)) }),
        ),
    decreases n,
{
    let m = Mark { task: Some(t.id@), ..mark(PoiLayer::Quest, o.zones@[k].pos->0, quest_card(t, o)) };
    let rest = zone_quest_marks(t, o, key, (n - 1) as nat);
    if k == n - 1 {
        assert(zone_quest_marks(t, o, key, n)[rest.len() as int] == m);
    } else {
        zone_is_marked(t, o, key, (n - 1) as nat, k);
        let q = choose|q: int| 0 <= q < rest.len() && rest[q] == m;
        assert(zone_quest_marks(t, o, key, n)[q] == m);
    }
}

proof fn objective_is_marked(t: QuestTask, key: Seq<char>, n: nat, j: int, m: Mark)
    requires
        0 <= j < n <= t.objectives@.len(),
        zone_quest_marks(t, t.objectives@[j], key, t.objectives@[j].zones@.len()).contains(m),
    ensures
        obj_quest_marks(t, key, n).contains(m),
    decreases n,
{
    let rest = obj_quest_marks(t, key, (n - 1) as nat);
    let o = t.objectives@[n - 1];
    let own = zone_quest_marks(t, o, key, o.zones@.len());
    if j == n - 1 {
        let q = choose|q: int| 0 <= q < own.len() && own[q] == m;
        assert(obj_quest_marks(t, key, n)[rest.len() + q] == m);
    } else {
        objective_is_marked(t, key, (n - 1) as nat, j, m);
        let q = choose|q: int| 0 <= q < rest.len() && rest[q] == m;
        assert(obj_quest_marks(t, key, n)[q] == m);
    }
}

proof fn task_is_marked(ts: Seq<QuestTask>, key: Seq<char>, n: nat, i: int, m: Mark)
    requires
        0 <= i < n <= ts.len(),
        obj_quest_marks(ts[i], key, ts[i].objectives@.len()).contains(m),
    ensures
        quest_marks(ts, key, n).contains(m),
    decreases n,
{
    let rest = quest_marks(ts, key, (n - 1) as nat);
    let own = obj_quest_marks(ts[n - 1], key, ts[n - 1].objectives@.len());
    if i == n - 1 {
        let q = choose|q: int| 0 <= q < own.len() && own[q] == m;
        assert(quest_marks(ts, key, n)[rest.len() + q] == m);
    } else {
        task_is_marked(ts, key, (n - 1) as nat, i, m);
        let q = choose|q: int| 0 <= q < rest.len() && rest[q] == m;
        assert(quest_marks(ts, key, n)[q] == m);
    }
}

/// Layer by layer, all markers of a map stand where the lists of its sources say: spawns and locks at
/// the places of their own lists; extracts, doors and mounted weapons from the best source that has
/// them; hazards, loot and tasks from all sources.
pub proof fn markers_stand_on_their_layers(s: PoiSources, key: Seq<char>)
    ensures
        ({
            let m = s.all_marks(key);
            &&& s.loot matches Some(d) ==> {
                &&& places_on(m, PoiLayer::PmcSpawn) == d.pmc_nodes@.map_values(|x: Node| x.pos)
                &&& places_on(m, PoiLayer::ScavSpawn) == d.scav_nodes@.map_values(|x: Node| x.pos)
                &&& places_on(m, PoiLayer::Boss) == d.boss_nodes@.map_values(|x: Node| x.pos)
                &&& places_on(m, PoiLayer::Lock) == d.locks@.map_values(|x: Lock| x.pos)
                &&& places_on(m, PoiLayer::Switch) == d.switches@.map_values(|x: Switch| x.pos)
                &&& places_on(m, PoiLayer::Transit) == d.transits@.map_values(|x: Transit| x.pos)
                &&& d.stationary@.len() > 0 ==> places_on(m, PoiLayer::Stationary)
                    == d.stationary@.map_values(|x: Stationary| x.pos)
            }
            &&& s.gamedata matches Some(g) ==> {
                &&& places_on(m, PoiLayer::Minefield) == g.minefields@.map_values(|x: GdZone| x.pos)
                &&& places_on(m, PoiLayer::SniperZone) == g.sniper_zones@.map_values(|x: GdZone| x.pos)
                &&& g.exfils@.len() > 0 ==> places_on(m, PoiLayer::Extract) == g.exfils@.map_values(
                    |x: GdExfil| x.pos,
                )
                &&& g.doors@.len() > 0 ==> places_on(m, PoiLayer::Door) == g.doors@.map_values(
                    |x: GdDoor| x.pos,
                )
            }
            &&& places_on(m, PoiLayer::Hazard) == (match s.loot {
                Some(d) => d.hazards@.filter(|x: Hazard| !x.covered).map_values(|x: Hazard| x.pos),
                None => Seq::empty(),
            }) + (match s.gamedata {
                Some(g) => g.mines_directional@.map_values(|x: GdZone| x.pos) + g.trader_zones@.map_values(
                    |x: GdZone| x.pos,
                ),
                None => Seq::empty(),
            })
            &&& places_on(m, PoiLayer::LooseLoot) == (match s.loot {
                Some(d) => d.loose@.filter(|x: Loose| !stands_for(x)).map_values(|x: Loose| x.pos),
                None => Seq::empty(),
            }) + (match s.gamedata {
                Some(g) => g.loose_points@.map_values(|x: GdLoose| x.pos),
                None => Seq::empty(),
            })
            &&& s.loot is None && s.gamedata is None ==> places_on(m, PoiLayer::PmcSpawn).len() == 0
                && places_on(m, PoiLayer::Boss).len() == 0 && places_on(m, PoiLayer::Lock).len() == 0
        }),
{
    parts_of_layer(s, key, PoiLayer::PmcSpawn);
    parts_of_layer(s, key, PoiLayer::ScavSpawn);
    parts_of_layer(s, key, PoiLayer::Boss);
    parts_of_layer(s, key, PoiLayer::Lock);
    parts_of_layer(s, key, PoiLayer::Switch);
    parts_of_layer(s, key, PoiLayer::Transit);
    parts_of_layer(s, key, PoiLayer::Stationary);
    parts_of_layer(s, key, PoiLayer::Minefield);
    parts_of_layer(s, key, PoiLayer::SniperZone);
    parts_of_layer(s, key, PoiLayer::Extract);
    parts_of_layer(s, key, PoiLayer::Door);
    parts_of_layer(s, key, PoiLayer::Hazard);
    parts_of_layer(s, key, PoiLayer::LooseLoot);
}

proof fn parts_of_layer(s: PoiSources, key: Seq<char>, l: PoiLayer)
    requires
        l != PoiLayer::Quest,
    ensures
        ({
            let from_list = places_on(s.loot_marks(), l);
            let typed = places_on(s.typed_marks(), l);
            &&& l != PoiLayer::Stationary && l != PoiLayer::Extract && l != PoiLayer::Door && l
                != PoiLayer::Interactable ==> places_on(s.all_marks(key), l) == from_list + typed
            &&& l == PoiLayer::Stationary && s.loot is Some && s.loot->0.stationary@.len() > 0 ==> places_on(
                s.all_marks(key),
                l,
            ) == from_list
            &&& l == PoiLayer::Extract && s.gamedata is Some && s.gamedata->0.exfils@.len() > 0 ==> places_on(
                s.all_marks(key),
                l,
            ) == typed
            &&& l == PoiLayer::Door && s.gamedata is Some && s.gamedata->0.doors@.len() > 0 ==> places_on(
                s.all_marks(key),
                l,
            ) == typed
            &&& s.loot matches Some(d) ==> match l {
                PoiLayer::PmcSpawn => from_list == d.pmc_nodes@.map_values(|x: Node| x.pos),
                PoiLayer::ScavSpawn => from_list == d.scav_nodes@.map_values(|x: Node| x.pos),
                PoiLayer::Boss => from_list == d.boss_nodes@.map_values(|x: Node| x.pos),
                PoiLayer::Lock => from_list == d.locks@.map_values(|x: Lock| x.pos),
                PoiLayer::Switch => from_list == d.switches@.map_values(|x: Switch| x.pos),
                PoiLayer::Transit => from_list == d.transits@.map_values(|x: Transit| x.pos),
                PoiLayer::Stationary => from_list == d.stationary@.map_values(|x: Stationary| x.pos),
                PoiLayer::Hazard => from_list == d.hazards@.filter(|x: Hazard| !x.covered).map_values(
                    |x: Hazard| x.pos,
                ),
                PoiLayer::LooseLoot => from_list == d.loose@.filter(|x: Loose| !stands_for(x)).map_values(
                    |x: Loose| x.pos,
                ),
                PoiLayer::Minefield | PoiLayer::SniperZone => from_list.len() == 0,
                _ => true,
            }
            &&& s.loot is None ==> from_list == Seq::<V3>::empty()
            &&& s.gamedata matches Some(g) ==> match l {
                PoiLayer::Minefield => typed == g.minefields@.map_values(|x: GdZone| x.pos),
                PoiLayer::SniperZone => typed == g.sniper_zones@.map_values(|x: GdZone| x.pos),
                PoiLayer::Extract => typed == g.exfils@.map_values(|x: GdExfil| x.pos),
                PoiLayer::Door => typed == g.doors@.map_values(|x: GdDoor| x.pos),
                PoiLayer::Hazard => typed == g.mines_directional@.map_values(|x: GdZone| x.pos)
                    + g.trader_zones@.map_values(|x: GdZone| x.pos),
                PoiLayer::LooseLoot => typed == g.loose_points@.map_values(|x: GdLoose| x.pos),
                PoiLayer::PmcSpawn | PoiLayer::ScavSpawn | PoiLayer::Boss | PoiLayer::Lock | PoiLayer::Switch
                | PoiLayer::Transit => typed.len() == 0,
                _ => true,
            }
            &&& s.gamedata is None ==> typed == Seq::<V3>::empty()
            &&& s.loot is None || s.gamedata is None || l == PoiLayer::PmcSpawn || l == PoiLayer::ScavSpawn || l
                == PoiLayer::Boss || l == PoiLayer::Lock || l == PoiLayer::Switch || l == PoiLayer::Transit || l
                == PoiLayer::Minefield || l == PoiLayer::SniperZone ==> ({
                &&& typed.len() == 0 ==> from_list + typed == from_list
                &&& from_list.len() == 0 ==> from_list + typed == typed
            })
        }),
{
    let (a, b, c, d, e) = (
        s.loot_marks(),
        s.typed_marks(),
        s.semantic_marks(),
        s.task_marks(key),
        s.geometry_marks(),
    );
    places_on_joined(a, b, l);
    places_on_joined(a + b, c, l);
    places_on_joined(a + b + c, d, l);
    places_on_joined(a + b + c + d, e, l);
    if s.loot is Some {
        listed_things_stand_on_their_layers(s, l);
    }
    if s.gamedata is Some {
        typed_things_stand_on_their_layers(s, l);
    }
    if let Some(ts) = s.tasks {
        quest_marks_are_on_their_layer(ts@, key, ts@.len());
    }
    places_of_one_layer(d, PoiLayer::Quest, d.map_values(|x: Mark| x.pos), l);
    places_of_one_layer(e, PoiLayer::Stationary, e.map_values(|x: Mark| x.pos), l);
    semantic_places(s, l);
    let (pa, pb, pc, pd, pe) = (
        places_on(a, l),
        places_on(b, l),
        places_on(c, l),
        places_on(d, l),
        places_on(e, l),
    );
    assert(places_on(s.all_marks(key), l) == pa + pb + pc + pd + pe);
    assert(pd == Seq::<V3>::empty());
    if l != PoiLayer::Stationary {
        assert(pe == Seq::<V3>::empty());
    }
    assert(pc.len() == 0 && pe.len() == 0 ==> pa + pb + pc + pd + pe =~= pa + pb);
    assert(pa.len() == 0 ==> pa + pb =~= pb);
    assert(pb.len() == 0 ==> pa + pb =~= pa);
    if l == PoiLayer::Stationary && s.loot is Some && s.loot->0.stationary@.len() > 0 {
        assert(e =~= Seq::empty());
        assert(pb.len() == 0);
        assert(pa + pb + pc + pd + pe =~= pa);
    }
    if l == PoiLayer::Extract && s.gamedata is Some && s.gamedata->0.exfils@.len() > 0 {
        assert(pa.len() == 0);
        assert(pa + pb + pc + pd + pe =~= pb);
    }
    if l == PoiLayer::Door && s.gamedata is Some && s.gamedata->0.doors@.len() > 0 {
        assert(pa.len() == 0);
        assert(pa + pb + pc + pd + pe =~= pb);
    }
}

proof fn semantic_places(s: PoiSources, l: PoiLayer)
    ensures
        l != PoiLayer::Extract && l != PoiLayer::Door && l != PoiLayer::Interactable ==> places_on(
            s.semantic_marks(),
            l,
        ) == Seq::<V3>::empty(),
        l == PoiLayer::Extract && s.gamedata is Some && s.gamedata->0.exfils@.len() > 0 ==> places_on(
            s.semantic_marks(),
            l,
        ) == Seq::<V3>::empty(),
        l == PoiLayer::Door && s.gamedata is Some && s.gamedata->0.doors@.len() > 0 ==> places_on(
            s.semantic_marks(),
            l,
        ) == Seq::<V3>::empty(),
{
    if let Some(m) = s.semantics {
        let a = if m.extract is Some && !s.listed_extracts() && !s.typed_extracts() {
            sem_marks(PoiLayer::Extract, m.extract->0@)
        } else {
            Seq::empty()
        };
        let b = if m.door is Some && !s.typed_doors() {
            sem_marks(PoiLayer::Door, m.door->0@)
        } else {
            Seq::empty()
        };
        let c = if m.loot is Some {
            sem_marks(PoiLayer::Interactable, m.loot->0@)
        } else {
            Seq::empty()
        };
        places_on_joined(a, b, l);
        places_on_joined(a + b, c, l);
        places_of_one_layer(a, PoiLayer::Extract, a.map_values(|x: Mark| x.pos), l);
        places_of_one_layer(b, PoiLayer::Door, b.map_values(|x: Mark| x.pos), l);
        places_of_one_layer(c, PoiLayer::Interactable, c.map_values(|x: Mark| x.pos), l);
        assert(s.semantic_marks() == a + b + c);
        let p = places_on(s.semantic_marks(), l);
        assert(p == places_on(a, l) + places_on(b, l) + places_on(c, l));
        if l == PoiLayer::Extract && s.typed_extracts() {
            assert(a.len() == 0);
        }
        if l == PoiLayer::Door && s.typed_doors() {
            assert(b.len() == 0);
        }
        if l != PoiLayer::Interactable && (l != PoiLayer::Extract || a.len() == 0) && (l != PoiLayer::Door
            || b.len() == 0) {
            assert(places_on(a, l).len() == 0);
            assert(places_on(b, l).len() == 0);
            assert(p =~= Seq::empty());
        }
    }
}

} // verus!
