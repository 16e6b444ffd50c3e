//! All markers of a map, from all sources, with the rules on which source wins.
use vstd::prelude::*;
use crate::f32bits::F32;
use crate::poi::card::{geometry_card, geometry_info, sem_card, sem_info};
use crate::poi::catalog::{by_price, key_catalog, key_uses, use_views, KeyCatalog};
use crate::poi::layer::PoiLayer;
use crate::poi::marker::{
    add_marker, is_within, mark_extracts, mark_hazards, mark_locks, mark_loose, mark_nodes, mark_stationary,
    mark_switches, mark_transits, marker, Marker, Wall,
};
use crate::poi::marker::{
    extract_marks, hazard_marks, lock_marks, loose_marks, mark, marks, node_marks, stationary_marks,
    switch_marks, transit_marks, wall_marks, within, Mark, WallMark,
};
use crate::poi::quests::{entry_views, mark_quests, quest_marks, quest_walls, quests_here, QuestData};
use crate::poi::records::{
    ExtractDev, GameData, GeometryItem, Lock, MapNodes, Poi, QuestTask, Semantics,
};
use crate::poi::typed::{
    fence_zones, mark_doors, mark_exfils, mark_gd_stationary, mark_loose_points, mark_zones, ExfilRing, Ring, ZoneKind,
};
use crate::poi::typed::{
    door_marks, exfil_marks, exfil_outlines, exfil_rings, exfil_walls, gd_stationary_marks, loose_point_marks, rings,
    zone_marks, zone_outlines, zone_walls,
};
use crate::text::{chars_of, contains_text, string_of, to_ascii_lower};
use crate::text::{ascii_lowered, holds_text};

verus! {

/// Whether a name that looks like an extract is known not to be one: a kitchen hood or a lamp.
pub open spec fn junk_extract(name: Seq<char>) -> bool {
    let s = ascii_lowered(name);
    holds_text(s, "extractor_"@) || holds_text(s, "exit_light"@)
}

fn is_junk_extract(name: &str) -> (r: bool)
    ensures
        r == junk_extract(name@),
{
    let s = to_ascii_lower(name);
    contains_text(s.as_str(), "extractor_") || contains_text(s.as_str(), "exit_light")
}

/// The bits of 1.2 * 1.2: the square of the distance within which classified objects are one.
pub const SAME_OBJECT_2: u32 = 0x3fb8_51ec;

/// The bits of 3: the distance along both ground axes within which parts are of one gun.
pub const SAME_GUN: u32 = 0x4040_0000;

/// Whether one of the kept places is less than `reach` away.
pub open spec fn near_kept(dist: Seq<F32>, kept: Seq<int>, reach: u32) -> bool {
    exists|k: int| 0 <= k < kept.len() && within(dist, #[trigger] kept[k], reach)
}

/// Which of the first `n` classified objects are marked: none with a junk name (where those are
/// dropped), and of objects close together only the first.
pub open spec fn kept_objects(v: Seq<Poi>, drop_junk: bool, n: nat) -> Seq<int>
    decreases n,
{
    if n == 0 {
        seq![]
    } else {
        let kept = kept_objects(v, drop_junk, (n - 1) as nat);
        if (drop_junk && junk_extract(v[n - 1].name@)) || near_kept(v[n - 1].dist2@, kept, SAME_OBJECT_2) {
            kept
        } else {
            kept.push(n - 1)
        }
    }
}

/// The markers of classified objects.
pub open spec fn sem_marks(l: PoiLayer, v: Seq<Poi>) -> Seq<Mark> {
    let kept = kept_objects(v, l == PoiLayer::Extract, v.len());
    Seq::new(kept.len(), |i: int| mark(l, v[kept[i]].p, sem_card(l, v[kept[i]])))
}

fn is_near_kept(dist: &Vec<F32>, kept: &Vec<usize>, reach: u32) -> (r: bool)
    ensures
        r == near_kept(dist@, kept@.map_values(|k: usize| k as int), reach),
{
    let ghost places = kept@.map_values(|k: usize| k as int);
    let n: usize = kept.len();
    let mut i: usize = 0;
    while i < n
        invariant
            i <= n,
            n == kept@.len(),
            places == kept@.map_values(|k: usize| k as int),
            forall|k: int| 0 <= k < i ==> !within(dist@, #[trigger] places[k], reach),
        decreases n - i,
    {
        proof {
            assert(places[i as int] == kept@[i as int] as int);
        }
        if is_within(dist, kept[i], reach) {
            return true;
        }
        i = i + 1;
    }
    false
}

/// Mark classified objects of a layer.
pub fn mark_objects(l: PoiLayer, v: &Vec<Poi>, out: &mut Vec<Marker>)
    ensures
        marks(final(out)@) == marks(old(out)@) + sem_marks(l, v@),
{
    let drop_junk = match l {
        PoiLayer::Extract => true,
        _ => false,
    };
    let ghost before = marks(out@);
    let mut kept: Vec<usize> = Vec::new();
    let n: usize = v.len();
    let mut i: usize = 0;
    proof {
        assert(kept@.map_values(|k: usize| k as int) =~= kept_objects(v@, drop_junk, 0));
        assert(before + Seq::new(0, |k: int| mark(l, v@[kept@[k] as int].p, sem_card(l, v@[kept@[k] as int])))
            =~= before);
    }
    while i < n
        invariant
            i <= n,
            n == v@.len(),
            drop_junk == (l == PoiLayer::Extract),
            kept@.map_values(|k: usize| k as int) == kept_objects(v@, drop_junk, i as nat),
            marks(out@) =~= before + Seq::new(
                kept@.len(),
                |k: int| mark(l, v@[kept@[k] as int].p, sem_card(l, v@[kept@[k] as int])),
            ),
        decreases n - i,
    {
        let poi = &v[i];
        let ghost was = kept@;
        if !(drop_junk && is_junk_extract(poi.name.as_str())) && !is_near_kept(&poi.dist2, &kept, SAME_OBJECT_2) {
            let m = marker(l, poi.p, sem_info(l, poi));
            add_marker(out, m);
            kept.push(i);
            proof {
                assert(kept@.map_values(|k: usize| k as int) =~= was.map_values(|k: usize| k as int).push(
                    i as int,
                ));
            }
        }
        i = i + 1;
    }
    proof {
        let places = kept_objects(v@, drop_junk, v@.len());
        assert forall|k: int| 0 <= k < kept@.len() implies places[k] == #[trigger] kept@[k] as int by {
            assert(kept@.map_values(|k: usize| k as int)[k] == kept@[k] as int);
        }
        assert(places.len() == kept@.len()) by {
            assert(kept@.map_values(|k: usize| k as int).len() == kept@.len());
        }
        assert(marks(out@) =~= before + sem_marks(l, v@));
    }
}

/// Whether a mesh is part of a mounted machine gun, by its name.
pub open spec fn gun_name(name: Seq<char>) -> bool {
    let s = ascii_lowered(name);
    !holds_text(s, "sandbag"@) && (holds_text(s, "reciever"@) || holds_text(s, "receiver"@) || holds_text(
        s,
        "dshk"@,
    ) || holds_text(s, "nsv"@) || holds_text(s, "kord"@) || holds_text(s, "utes"@) || holds_text(s, "pkm"@)
        || holds_text(s, "pulemet"@))
}

/// Whether a mesh is part of a mounted machine gun, by its name.
pub fn is_gun_name(name: &str) -> (r: bool)
    ensures
        r == gun_name(name@),
{
    let low = to_ascii_lower(name);
    let s = low.as_str();
    !contains_text(s, "sandbag") && (contains_text(s, "reciever") || contains_text(s, "receiver")
        || contains_text(s, "dshk") || contains_text(s, "nsv") || contains_text(s, "kord")
        || contains_text(s, "utes") || contains_text(s, "pkm") || contains_text(s, "pulemet"))
}

/// Which of the first `n` instances are marked as guns: of parts close together only the first.
pub open spec fn kept_guns(v: Seq<GeometryItem>, n: nat) -> Seq<int>
    decreases n,
{
    if n == 0 {
        seq![]
    } else {
        let kept = kept_guns(v, (n - 1) as nat);
        if v[n - 1].mesh is Some && gun_name(v[n - 1].mesh->0@) && !near_kept(v[n - 1].away@, kept, SAME_GUN) {
            kept.push(n - 1)
        } else {
            kept
        }
    }
}

/// The markers of guns that are found in the geometry.
pub open spec fn gun_marks(v: Seq<GeometryItem>) -> Seq<Mark> {
    let kept = kept_guns(v, v.len());
    Seq::new(kept.len(), |i: int| mark(PoiLayer::Stationary, v[kept[i]].pos, geometry_card()))
}

/// Mark the guns in the geometry.
pub fn mark_guns(v: &Vec<GeometryItem>, out: &mut Vec<Marker>)
    ensures
        marks(final(out)@) == marks(old(out)@) + gun_marks(v@),
{
    let ghost before = marks(out@);
    let mut kept: Vec<usize> = Vec::new();
    let n: usize = v.len();
    let mut i: usize = 0;
    proof {
        assert(kept@.map_values(|k: usize| k as int) =~= kept_guns(v@, 0));
    }
    while i < n
        invariant
            i <= n,
            n == v@.len(),
            kept@.map_values(|k: usize| k as int) == kept_guns(v@, i as nat),
            marks(out@) =~= before + Seq::new(
                kept@.len(),
                |k: int| mark(PoiLayer::Stationary, v@[kept@[k] as int].pos, geometry_card()),
            ),
        decreases n - i,
    {
        let item = &v[i];
        let ghost was = kept@;
        let is_gun = match &item.mesh {
            Some(name) => is_gun_name(name.as_str()),
            None => false,
        };
        if is_gun && !is_near_kept(&item.away, &kept, SAME_GUN) {
            let m = marker(PoiLayer::Stationary, item.pos, geometry_info());
            add_marker(out, m);
            kept.push(i);
            proof {
                assert(kept@.map_values(|k: usize| k as int) =~= was.map_values(|k: usize| k as int).push(
                    i as int,
                ));
            }
        }
        i = i + 1;
    }
    proof {
        let places = kept_guns(v@, v@.len());
        assert forall|k: int| 0 <= k < kept@.len() implies places[k] == #[trigger] kept@[k] as int by {
            assert(kept@.map_values(|k: usize| k as int)[k] == kept@[k] as int);
        }
        assert(places.len() == kept@.len()) by {
            assert(kept@.map_values(|k: usize| k as int).len() == kept@.len());
        }
        assert(marks(out@) =~= before + gun_marks(v@));
    }
}

/// The outlines of the typed zones, by what shows them.
#[derive(Debug)]
pub struct GameDataZones {
    /// Whether typed data are in use.
    pub live: bool,
    /// Whether the outlines follow the terrain.
    pub draped: bool,
    pub exfils: Vec<ExfilRing>,
    pub minefields: Vec<Ring>,
    pub sniper_zones: Vec<Ring>,
    pub hazard_zones: Vec<Ring>,
    pub transits: Vec<Ring>,
}

/// Everything that is shown on a map.
#[derive(Debug)]
pub struct Pois {
    pub markers: Vec<Marker>,
    pub walls: Vec<Wall>,
    pub zones: GameDataZones,
    pub keys: KeyCatalog,
    pub quests: QuestData,
}

/// Where the markers of a map come from.
#[derive(Debug)]
pub struct PoiSources {
    /// The community's data on the map.
    pub loot: Option<MapNodes>,
    /// The typed game data.
    pub gamedata: Option<GameData>,
    /// The objects that were classified by their names.
    pub semantics: Option<Semantics>,
    /// The tasks.
    pub tasks: Option<Vec<QuestTask>>,
    /// The instances of the map's geometry.
    pub geometry: Vec<GeometryItem>,
}

impl PoiSources {
    /// Whether there are typed extracts.
    pub open spec fn typed_extracts(self) -> bool {
        self.gamedata is Some && self.gamedata->0.exfils@.len() > 0
    }

    /// Whether there are typed doors.
    pub open spec fn typed_doors(self) -> bool {
        self.gamedata is Some && self.gamedata->0.doors@.len() > 0
    }

    /// Whether the extracts of the community's list are shown: where there are some, and no typed ones.
    pub open spec fn listed_extracts(self) -> bool {
        self.loot is Some && self.loot->0.extracts_dev@.len() > 0 && !self.typed_extracts()
    }

    /// Whether the community's data list mounted weapons.
    pub open spec fn listed_stationary(self) -> bool {
        self.loot is Some && self.loot->0.stationary@.len() > 0
    }

    /// Whether typed mounted weapons are shown: where there are some, and none in the list.
    pub open spec fn typed_stationary(self) -> bool {
        self.gamedata is Some && !self.listed_stationary() && self.gamedata->0.stationary@.len() > 0
    }

    /// The extracts of the community's list.
    pub open spec fn extracts(self) -> Seq<ExtractDev> {
        match self.loot {
            Some(l) => l.extracts_dev@,
            None => seq![],
        }
    }

    /// The locks of the community's list.
    pub open spec fn locks(self) -> Seq<Lock> {
        match self.loot {
            Some(l) => l.locks@,
            None => seq![],
        }
    }

    /// The markers from the community's data.
    pub open spec fn loot_marks(self) -> Seq<Mark> {
        match self.loot {
            None => seq![],
            Some(l) => node_marks(PoiLayer::PmcSpawn, l.pmc_nodes@) + node_marks(
                PoiLayer::ScavSpawn,
                l.scav_nodes@,
            ) + node_marks(PoiLayer::Boss, l.boss_nodes@) + lock_marks(l.locks@) + switch_marks(
                l.switches@,
            ) + transit_marks(l.transits@) + hazard_marks(l.hazards@, l.hazards@.len())
                + stationary_marks(l.stationary@) + loose_marks(l.loose@, l.loose@.len()) + (
            if self.listed_extracts() {
                extract_marks(l.extracts_dev@)
            } else {
                seq![]
            }),
        }
    }

    /// The markers from the typed game data.
    pub open spec fn typed_marks(self) -> Seq<Mark> {
        match self.gamedata {
            None => seq![],
            Some(g) => exfil_marks(g.exfils@, self.extracts()) + zone_marks(
                ZoneKind::Minefield,
                g.minefields@,
            ) + zone_marks(ZoneKind::SniperZone, g.sniper_zones@) + zone_marks(
                ZoneKind::DirectionalMine,
                g.mines_directional@,
            ) + zone_marks(ZoneKind::Trader, g.trader_zones@) + zone_marks(
                ZoneKind::QuestTrigger,
                g.quest_triggers@,
            ) + loose_point_marks(g.loose_points@) + door_marks(g.doors@, self.locks()) + (
            if self.typed_stationary() {
                gd_stationary_marks(g.stationary@)
            } else {
                seq![]
            }),
        }
    }

    /// The markers of classified objects: extracts and doors only where no better source has them.
    pub open spec fn semantic_marks(self) -> Seq<Mark> {
        match self.semantics {
            None => seq![],
            Some(s) => (if s.extract is Some && !self.listed_extracts() && !self.typed_extracts() {
                sem_marks(PoiLayer::Extract, s.extract->0@)
            } else {
                seq![]
            }) + (if s.door is Some && !self.typed_doors() {
                sem_marks(PoiLayer::Door, s.door->0@)
            } else {
                seq![]
            }) + (if s.loot is Some {
                sem_marks(PoiLayer::Interactable, s.loot->0@)
            } else {
                seq![]
            }),
        }
    }

    /// The markers of tasks on the map `key`.
    pub open spec fn task_marks(self, key: Seq<char>) -> Seq<Mark> {
        match self.tasks {
            None => seq![],
            Some(ts) => quest_marks(ts@, key, ts@.len()),
        }
    }

    /// The markers of guns in the geometry: only where no source lists mounted weapons.
    pub open spec fn geometry_marks(self) -> Seq<Mark> {
        if !self.listed_stationary() && !self.typed_stationary() {
            gun_marks(self.geometry@)
        } else {
            seq![]
        }
    }

    /// All markers of the map `key`.
    pub open spec fn all_marks(self, key: Seq<char>) -> Seq<Mark> {
        self.loot_marks() + self.typed_marks() + self.semantic_marks() + self.task_marks(key)
            + self.geometry_marks()
    }

    /// The walls of the typed zones.
    pub open spec fn typed_walls(self) -> Seq<WallMark> {
        match self.gamedata {
            None => seq![],
            Some(g) => exfil_walls(g.exfils@, g.exfils@.len()) + zone_walls(
                PoiLayer::Minefield,
                g.minefields@,
                g.minefields@.len(),
            ) + zone_walls(PoiLayer::SniperZone, g.sniper_zones@, g.sniper_zones@.len()) + zone_walls(
                PoiLayer::Hazard,
                g.mines_directional@,
                g.mines_directional@.len(),
            ) + zone_walls(PoiLayer::Hazard, g.trader_zones@, g.trader_zones@.len()) + zone_walls(
                PoiLayer::Transit,
                g.transit_points@,
                g.transit_points@.len(),
            ),
        }
    }

    /// All walls of the map `key`.
    pub open spec fn all_walls(self, key: Seq<char>) -> Seq<WallMark> {
        self.typed_walls() + match self.tasks {
            None => seq![],
            Some(ts) => quest_walls(ts@, key, ts@.len()),
        }
    }

    /// Whether the outlines are those of the typed zones.
    pub open spec fn zones_are(self, z: GameDataZones) -> bool {
        match self.gamedata {
            None => !z.live && !z.draped && z.exfils@.len() == 0 && z.minefields@.len() == 0
                && z.sniper_zones@.len() == 0 && z.hazard_zones@.len() == 0 && z.transits@.len() == 0,
            Some(g) => {
                &&& z.live == (self.typed_extracts() || g.minefields@.len() > 0 || g.sniper_zones@.len() > 0)
                &&& z.draped == g.draped
                &&& exfil_rings(z.exfils@) == exfil_outlines(g.exfils@, g.exfils@.len())
                &&& rings(z.minefields@) == zone_outlines(g.minefields@, g.minefields@.len())
                &&& rings(z.sniper_zones@) == zone_outlines(g.sniper_zones@, g.sniper_zones@.len())
                &&& rings(z.hazard_zones@) == zone_outlines(
                    g.mines_directional@,
                    g.mines_directional@.len(),
                ) + zone_outlines(g.trader_zones@, g.trader_zones@.len())
                &&& rings(z.transits@) == zone_outlines(g.transit_points@, g.transit_points@.len())
            },
        }
    }

    fn has_typed_extracts(&self) -> (r: bool)
        ensures
            r == self.typed_extracts(),
    {
        match &self.gamedata {
            Some(g) => g.exfils.len() > 0,
            None => false,
        }
    }

    fn has_typed_doors(&self) -> (r: bool)
        ensures
            r == self.typed_doors(),
    {
        match &self.gamedata {
            Some(g) => g.doors.len() > 0,
            None => false,
        }
    }

    fn has_listed_extracts(&self) -> (r: bool)
        ensures
            r == self.listed_extracts(),
    {
        match &self.loot {
            Some(l) => l.extracts_dev.len() > 0 && !self.has_typed_extracts(),
            None => false,
        }
    }

    fn has_listed_stationary(&self) -> (r: bool)
        ensures
            r == self.listed_stationary(),
    {
        match &self.loot {
            Some(l) => l.stationary.len() > 0,
            None => false,
        }
    }

    fn has_typed_stationary(&self) -> (r: bool)
        ensures
            r == self.typed_stationary(),
    {
        match &self.gamedata {
            Some(g) => !self.has_listed_stationary() && g.stationary.len() > 0,
            None => false,
        }
    }

    fn mark_loot(&self, out: &mut Vec<Marker>)
        ensures
            marks(final(out)@) == marks(old(out)@) + self.loot_marks(),
    {
        let ghost before = marks(out@);
        match &self.loot {
            Some(l) => {
                mark_nodes(PoiLayer::PmcSpawn, &l.pmc_nodes, out);
                mark_nodes(PoiLayer::ScavSpawn, &l.scav_nodes, out);
                mark_nodes(PoiLayer::Boss, &l.boss_nodes, out);
                mark_locks(&l.locks, out);
                mark_switches(&l.switches, out);
                mark_transits(&l.transits, out);
                mark_hazards(&l.hazards, out);
                mark_stationary(&l.stationary, out);
                mark_loose(&l.loose, out);
                if self.has_listed_extracts() {
                    mark_extracts(&l.extracts_dev, out);
                }
            },
            None => {},
        }
        proof {
            assert(marks(out@) =~= before + self.loot_marks());
        }
    }

    fn mark_typed(&self, out: &mut Vec<Marker>, walls: &mut Vec<Wall>) -> (zones: GameDataZones)
        ensures
            marks(final(out)@) == marks(old(out)@) + self.typed_marks(),
            wall_marks(final(walls)@) == wall_marks(old(walls)@) + self.typed_walls(),
            self.zones_are(zones),
    {
        let ghost m0 = marks(out@);
        let ghost w0 = wall_marks(walls@);
        let mut exfils: Vec<ExfilRing> = Vec::new();
        let mut minefields: Vec<Ring> = Vec::new();
        let mut sniper_zones: Vec<Ring> = Vec::new();
        let mut hazard_zones: Vec<Ring> = Vec::new();
        let mut transits: Vec<Ring> = Vec::new();
        let mut live = false;
        let mut draped = false;
        proof {
            assert(exfil_rings(exfils@).len() == 0);
            assert(rings(minefields@).len() == 0);
            assert(rings(sniper_zones@).len() == 0);
            assert(rings(hazard_zones@).len() == 0);
            assert(rings(transits@).len() == 0);
        }
        match &self.gamedata {
            Some(g) => {
                live = self.has_typed_extracts() || g.minefields.len() > 0 || g.sniper_zones.len() > 0;
                draped = g.draped;
                match &self.loot {
                    Some(l) => {
                        mark_exfils(&g.exfils, &l.extracts_dev, out, walls, &mut exfils);
                    },
                    None => {
                        let none: Vec<ExtractDev> = Vec::new();
                        mark_exfils(&g.exfils, &none, out, walls, &mut exfils);
                        proof {
                            assert(none@ =~= self.extracts());
                        }
                    },
                }
                mark_zones(ZoneKind::Minefield, &g.minefields, out);
                fence_zones(PoiLayer::Minefield, &g.minefields, walls, &mut minefields);
                mark_zones(ZoneKind::SniperZone, &g.sniper_zones, out);
                fence_zones(PoiLayer::SniperZone, &g.sniper_zones, walls, &mut sniper_zones);
                mark_zones(ZoneKind::DirectionalMine, &g.mines_directional, out);
                fence_zones(PoiLayer::Hazard, &g.mines_directional, walls, &mut hazard_zones);
                mark_zones(ZoneKind::Trader, &g.trader_zones, out);
                fence_zones(PoiLayer::Hazard, &g.trader_zones, walls, &mut hazard_zones);
                mark_zones(ZoneKind::QuestTrigger, &g.quest_triggers, out);
                fence_zones(PoiLayer::Transit, &g.transit_points, walls, &mut transits);
                mark_loose_points(&g.loose_points, out);
                match &self.loot {
                    Some(l) => {
                        mark_doors(&g.doors, &l.locks, out);
                    },
                    None => {
                        let none: Vec<Lock> = Vec::new();
                        mark_doors(&g.doors, &none, out);
                        proof {
                            assert(none@ =~= self.locks());
                        }
                    },
                }
                if self.has_typed_stationary() {
                    mark_gd_stationary(&g.stationary, out);
                }
                proof {
                    assert(exfil_rings(exfils@) =~= exfil_outlines(g.exfils@, g.exfils@.len()));
                    assert(rings(minefields@) =~= zone_outlines(g.minefields@, g.minefields@.len()));
                    assert(rings(sniper_zones@) =~= zone_outlines(
                        g.sniper_zones@,
                        g.sniper_zones@.len(),
                    ));
                    assert(rings(hazard_zones@) =~= zone_outlines(
                        g.mines_directional@,
                        g.mines_directional@.len(),
                    ) + zone_outlines(g.trader_zones@, g.trader_zones@.len()));
                    assert(rings(transits@) =~= zone_outlines(
                        g.transit_points@,
                        g.transit_points@.len(),
                    ));
                }
            },
            None => {},
        }
        proof {
            assert(marks(out@) =~= m0 + self.typed_marks());
            assert(wall_marks(walls@) =~= w0 + self.typed_walls());
        }
        GameDataZones {
            live,
            draped,
            exfils,
            minefields,
            sniper_zones,
            hazard_zones,
            transits,
        }
    }

    fn mark_semantics(&self, out: &mut Vec<Marker>)
        ensures
            marks(final(out)@) == marks(old(out)@) + self.semantic_marks(),
    {
        let ghost before = marks(out@);
        match &self.semantics {
            Some(s) => {
                if let Some(v) = &s.extract {
                    if !self.has_listed_extracts() && !self.has_typed_extracts() {
                        mark_objects(PoiLayer::Extract, v, out);
                    }
                }
                if let Some(v) = &s.door {
                    if !self.has_typed_doors() {
                        mark_objects(PoiLayer::Door, v, out);
                    }
                }
                if let Some(v) = &s.loot {
                    mark_objects(PoiLayer::Interactable, v, out);
                }
            },
            None => {},
        }
        proof {
            assert(marks(out@) =~= before + self.semantic_marks());
        }
    }

    /// Make everything that is shown on the map `key`.
    pub fn spawn_pois(&self, key: &str) -> (r: Pois)
        ensures
            marks(r.markers@) == self.all_marks(key@),
            wall_marks(r.walls@) == self.all_walls(key@),
            self.zones_are(r.zones),
            use_views(r.keys.keys@) == by_price(key_uses(self.locks(), self.locks().len())),
            entry_views(r.quests.tasks@) == (match self.tasks {
                Some(ts) => quests_here(ts@, key@, ts@.len()),
                None => seq![],
            }),
    {
        let mut markers: Vec<Marker> = Vec::new();
        let mut walls: Vec<Wall> = Vec::new();
        proof {
            assert(marks(markers@).len() == 0);
            assert(wall_marks(walls@).len() == 0);
        }
        self.mark_loot(&mut markers);
        let zones = self.mark_typed(&mut markers, &mut walls);
        self.mark_semantics(&mut markers);
        let quests = match &self.tasks {
            Some(ts) => mark_quests(ts, key, &mut markers, &mut walls),
            None => {
                let none = QuestData { tasks: Vec::new() };
                proof {
                    assert(entry_views(none.tasks@).len() == 0);
                    assert(entry_views(none.tasks@) =~= seq![]);
                }
                none
            },
        };
        if !self.has_listed_stationary() && !self.has_typed_stationary() {
            mark_guns(&self.geometry, &mut markers);
        }
        let keys = match &self.loot {
            Some(l) => key_catalog(&l.locks),
            None => {
                let none: Vec<Lock> = Vec::new();
                proof {
                    assert(none@ =~= self.locks());
                }
                key_catalog(&none)
            },
        };
        proof {
            assert(marks(markers@) =~= self.all_marks(key@));
            assert(wall_marks(walls@) =~= self.all_walls(key@));
        }
        Pois { markers, walls, zones, keys, quests }
    }
}

/// Whether a version stands at place `k` of a name: an underscore, a "v" and then digits to the end.
pub open spec fn version_at(s: Seq<char>, k: int) -> bool {
    &&& 0 <= k
    &&& k + 2 < s.len()
    &&& s[k] == '_'
    &&& s[k + 1] == 'v'
    &&& forall|j: int| k + 2 <= j < s.len() ==> 48 <= #[trigger] s[j] as u32 <= 57
}

/// The key of a map: its own where it has one, else the name of its dataset, without a version at the
/// end.
pub open spec fn map_key_text(map: Seq<char>, dataset: Seq<char>, key: Seq<char>) -> bool {
    if map.len() > 0 {
        key == map
    } else {
        ||| exists|k: int| version_at(dataset, k) && key == dataset.take(k)
        ||| (forall|k: int| !version_at(dataset, k)) && key == dataset
    }
}

/// The key under which a map's data are joined.
pub fn map_key(map: &str, dataset: &str) -> (r: String)
    ensures
        map_key_text(map@, dataset@, r@),
{
    let m = chars_of(map);
    if m.len() > 0 {
        return map.to_owned();
    }
    let v = chars_of(dataset);
    let n: usize = v.len();
    let mut e: usize = n;
    while e > 0 && 48 <= v[e - 1] as u32 && v[e - 1] as u32 <= 57
        invariant
            e <= n,
            n == v@.len(),
            forall|j: int| e <= j < n ==> 48 <= #[trigger] v@[j] as u32 <= 57,
        decreases e,
    {
        e = e - 1;
    }
    if e < n && e >= 2 && v[e - 1] == 'v' && v[e - 2] == '_' {
        let r = string_of(&v, 0, e - 2);
        proof {
            assert(version_at(dataset@, e - 2));
            assert(r@ =~= dataset@.take(e - 2));
        }
        return r;
    }
    proof {
        assert forall|k: int| !version_at(dataset@, k) by {
            if version_at(dataset@, k) {
                if k + 2 < e {
                    assert(48 <= dataset@[e - 1] as u32 <= 57);
                } else if k + 2 > e {
                    assert(48 <= dataset@[k + 1] as u32 <= 57);
                }
            }
        }
    }
    dataset.to_owned()
}

/// The key of a map is determined by its own key and its dataset's name.
pub proof fn map_key_is_unique(map: Seq<char>, dataset: Seq<char>, a: Seq<char>, b: Seq<char>)
    requires
        map_key_text(map, dataset, a),
        map_key_text(map, dataset, b),
    ensures
        a == b,
{
    if map.len() == 0 {
        assert forall|i: int, j: int| version_at(dataset, i) && version_at(dataset, j) implies i == j by {
            if i < j {
                assert(48 <= dataset[j + 1] as u32 <= 57);
            } else if j < i {
                assert(48 <= dataset[i + 1] as u32 <= 57);
            }
        }
    }
}

/// Where a data file beside the packs is found.
#[derive(Clone, Copy, Debug, PartialEq, Eq, Structural)]
pub enum Sidecar {
    /// At the path that the environment gives.
    Env,
    /// In the pack's directory.
    Pack,
    /// In the directory that is shared by the packs around it.
    PackShared,
    /// In the shared directory of all packs.
    Shared,
    /// In the working directory.
    Cwd,
}

/// Where a data file is taken from: the first place that has it. Each argument says whether the file
/// is at a place, and is none where the place is not known.
pub fn resolve_sidecar(
    env: Option<bool>,
    pack: bool,
    pack_shared: Option<bool>,
    shared: bool,
    cwd: bool,
) -> (r: Option<Sidecar>)
    ensures
        r == (if env == Some(true) {
            Some(Sidecar::Env)
        } else if pack {
            Some(Sidecar::Pack)
        } else if pack_shared == Some(true) {
            Some(Sidecar::PackShared)
        } else if shared {
            Some(Sidecar::Shared)
        } else if cwd {
            Some(Sidecar::Cwd)
        } else {
            None
        }),
{
    if let Some(true) = env {
        return Some(Sidecar::Env);
    }
    if pack {
        return Some(Sidecar::Pack);
    }
    if let Some(true) = pack_shared {
        return Some(Sidecar::PackShared);
    }
    if shared {
        return Some(Sidecar::Shared);
    }
    if cwd {
        return Some(Sidecar::Cwd);
    }
    None
}

/// The extracts of a map come from one source only: typed ones keep out those of the list, and either
/// keeps out those that were classified by name.
pub proof fn one_source_of_extracts(s: PoiSources)
    ensures
        s.typed_extracts() ==> !s.listed_extracts(),
        s.typed_stationary() ==> !s.listed_stationary(),
{
}

/// Kept objects are among those that were looked at.
proof fn kept_objects_bound(v: Seq<Poi>, drop_junk: bool, n: nat, i: int)
    requires
        n <= v.len(),
        0 <= i < kept_objects(v, drop_junk, n).len(),
    ensures
        0 <= kept_objects(v, drop_junk, n)[i] < n,
    decreases n,
{
    let rest = kept_objects(v, drop_junk, (n - 1) as nat);
    if i < rest.len() {
        kept_objects_bound(v, drop_junk, (n - 1) as nat, i);
    }
}

/// Kept objects come in rising order, and no two of them are close together.
pub proof fn kept_objects_are_apart(v: Seq<Poi>, drop_junk: bool, n: nat, i: int, j: int)
    requires
        n <= v.len(),
        0 <= i < j < kept_objects(v, drop_junk, n).len(),
    ensures
        kept_objects(v, drop_junk, n)[i] < kept_objects(v, drop_junk, n)[j] < n,
        !within(
            v[kept_objects(v, drop_junk, n)[j]].dist2@,
            kept_objects(v, drop_junk, n)[i],
            SAME_OBJECT_2,
        ),
    decreases n,
{
    let rest = kept_objects(v, drop_junk, (n - 1) as nat);
    if j < rest.len() {
        kept_objects_are_apart(v, drop_junk, (n - 1) as nat, i, j);
    } else {
        kept_objects_bound(v, drop_junk, (n - 1) as nat, i);
        assert(!within(v[n - 1].dist2@, rest[i], SAME_OBJECT_2));
    }
}

/// An object is left out only for its name, or because one that is kept is close to it.
pub proof fn left_out_objects_are_covered(v: Seq<Poi>, drop_junk: bool, n: nat, i: int)
    requires
        0 <= i < n <= v.len(),
        !kept_objects(v, drop_junk, n).contains(i),
    ensures
        (drop_junk && junk_extract(v[i].name@)) || near_kept(
            v[i].dist2@,
            kept_objects(v, drop_junk, n),
            SAME_OBJECT_2,
        ),
    decreases n,
{
    let rest = kept_objects(v, drop_junk, (n - 1) as nat);
    let all = kept_objects(v, drop_junk, n);
    if i < n - 1 {
        assert(!rest.contains(i)) by {
            if rest.contains(i) {
                let k = choose|k: int| 0 <= k < rest.len() && rest[k] == i;
                assert(all[k] == i);
            }
        }
        left_out_objects_are_covered(v, drop_junk, (n - 1) as nat, i);
        if near_kept(v[i].dist2@, rest, SAME_OBJECT_2) {
            let k = choose|k: int| 0 <= k < rest.len() && within(
                v[i].dist2@,
                #[trigger] rest[k],
                SAME_OBJECT_2,
            );
            assert(all[k] == rest[k]);
        }
    } else if all.len() > rest.len() {
        assert(all[rest.len() as int] == i);
    }
}

} // verus!
