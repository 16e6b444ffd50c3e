use atlas::f32bits::F32;
use atlas::gpu::materials::V3;
use atlas::poi::assemble::{map_key, resolve_sidecar, PoiSources, Pois, Sidecar};
use atlas::poi::card::{
    extract_dev_info, extract_faction_color, faction_label, gd_door_info, gd_exfil_info, gd_loose_info, gd_mine_info,
    gd_trader_info, gd_trigger_info, gd_zone_info, hazard_info, lock_info, loose_info, node_info, quest_info, sem_info,
    switch_info, transit_info, zone_extent_line,
};
use atlas::poi::catalog::key_catalog;
use atlas::poi::layer::{
    pick_radius, poi_look, value_passes, visibility_is_stale, zone_wall_indices, LayerToggles, MarkerValue, PoiLayer,
};
use atlas::poi::marker::{Marker, Tint};
use atlas::poi::quests::{quest_outline_drawn, quest_outlines_visible, QuestZoneW};
use atlas::poi::records::{
    BossLoc, Escort, Extent, ExtractDev, Faction, GameData, GdDoor, GdExfil, GdLoose, GdLooseItem, GdStationary, GdZone,
    GeometryItem, Hazard, Key, Lock, Loose, MapNodes, Node, Poi, Price, QuestObjective, QuestTask, QuestZone,
    Semantics, Share, Stationary, Switch, Transit, Word,
};
use atlas::poi::typed::{hazard_zones, nearest_of};

fn f(x: f32) -> F32 {
    F32 { bits: x.to_bits() }
}

fn at(x: f32) -> V3 {
    V3 { x: f(x), y: f(0.0), z: f(0.0) }
}

fn s(x: &str) -> String {
    x.to_string()
}

fn price(n: i64) -> Option<Price> {
    Some(Price { roubles: n, text: format!("{n} RUB") })
}

fn faction(x: &str) -> Faction {
    let parts = x.split('+').map(|w| Word { word: s(w), title: w.to_uppercase() }).collect();
    Faction { text: s(x), parts }
}

fn node() -> Node {
    Node {
        pos: at(0.0),
        n: None,
        ev: None,
        boss_title: None,
        chance: None,
        name: None,
        st: None,
        escorts: vec![],
        locs: vec![],
    }
}

fn key(n: &str, card: i64, pr: Option<Price>) -> Key {
    Key { n: s(n), s: s(n), card, pr }
}

fn zone(name: Option<&str>, kind: Option<&str>) -> GdZone {
    GdZone {
        pos: at(1.0),
        name: name.map(s),
        pretty: name.map(s),
        kind: kind.map(s),
        outline: vec![],
        extent: None,
        sides: None,
        active: true,
    }
}

fn no_nodes() -> MapNodes {
    MapNodes {
        pmc_nodes: vec![],
        scav_nodes: vec![],
        boss_nodes: vec![],
        locks: vec![],
        switches: vec![],
        transits: vec![],
        hazards: vec![],
        stationary: vec![],
        extracts_dev: vec![],
        loose: vec![],
    }
}

fn no_gamedata() -> GameData {
    GameData {
        draped: false,
        exfils: vec![],
        minefields: vec![],
        sniper_zones: vec![],
        doors: vec![],
        stationary: vec![],
        loose_points: vec![],
        mines_directional: vec![],
        quest_triggers: vec![],
        trader_zones: vec![],
        transit_points: vec![],
    }
}

fn sources() -> PoiSources {
    PoiSources { loot: None, gamedata: None, semantics: None, tasks: None, geometry: vec![] }
}

fn layers(p: &Pois) -> Vec<PoiLayer> {
    p.markers.iter().map(|m| m.layer).collect()
}

fn titles(p: &Pois) -> Vec<&str> {
    p.markers.iter().map(|m| m.info.title.as_str()).collect()
}

#[test]
fn maps_are_named_without_their_version() {
    assert_eq!(map_key("bigmap", "whatever_v3"), "bigmap");
    assert_eq!(map_key("", "interchange_v2"), "interchange");
    assert_eq!(map_key("", "interchange_v2b"), "interchange_v2b");
    assert_eq!(map_key("", "interchange_v"), "interchange_v");
    assert_eq!(map_key("", "a_v1_v22"), "a_v1");
}

#[test]
fn sidecars_are_looked_for_in_turn() {
    assert_eq!(resolve_sidecar(Some(true), true, Some(true), true, true), Some(Sidecar::Env));
    assert_eq!(resolve_sidecar(Some(false), true, Some(true), true, true), Some(Sidecar::Pack));
    assert_eq!(resolve_sidecar(None, false, Some(true), true, true), Some(Sidecar::PackShared));
    assert_eq!(resolve_sidecar(None, false, None, true, true), Some(Sidecar::Shared));
    assert_eq!(resolve_sidecar(None, false, Some(false), false, true), Some(Sidecar::Cwd));
    assert_eq!(resolve_sidecar(None, false, None, false, false), None);
}

#[test]
fn factions_are_spelled_out() {
    assert_eq!(faction_label("pmc", "Pmc"), "PMC");
    assert_eq!(faction_label("shared", "Shared"), "All");
    assert_eq!(faction_label("pmc+scav", "x"), "All");
    assert_eq!(faction_label("bear", "Bear"), "Bear");
    let both = faction("pmc+scav");
    let c = extract_dev_info("Railway", &both.text, &both.parts);
    assert_eq!(c.title, "Railway  [All]");
    assert_eq!(c.detail, vec![s("Faction: PMC + Scav")]);
    let none = extract_dev_info("", "", &vec![Word { word: s(""), title: s("") }]);
    assert_eq!(none.title, "Extract");
    assert_eq!(extract_faction_color("pmc"), poi_look(PoiLayer::Extract).color);
    assert_eq!(extract_faction_color("a+b"), extract_faction_color("shared"));
    assert_ne!(extract_faction_color("scav"), extract_faction_color("secret"));
}

#[test]
fn a_typed_extract_keeps_its_scene_name() {
    let mut e = GdExfil {
        pos: at(0.0),
        name: s("NW Exfil"),
        faction: faction("scav"),
        outline: vec![],
        active: false,
        dev_dist: vec![],
    };
    let c = gd_exfil_info(&e, Some("Railway Exfil"));
    assert_eq!(c.title, "Railway Exfil  [Scav]");
    assert_eq!(
        c.detail,
        vec![s("Faction: Scav"), s("Scene id: NW Exfil"), s("Inactive in scene"), s("Source: game files")]
    );
    e.active = true;
    assert_eq!(gd_exfil_info(&e, None).detail, vec![s("Faction: Scav"), s("Source: game files")]);
}

#[test]
fn zone_cards_say_how_large_the_zone_is() {
    let mut z = zone(Some("Minefield Low"), None);
    assert_eq!(zone_extent_line(&z), None);
    z.sides = Some(Extent { w: f(4.0), d: f(5.0), text: s("~4 x 5 m") });
    assert_eq!(zone_extent_line(&z), None, "two points have no sides");
    z.outline = vec![at(0.0), at(4.0), at(9.0)];
    assert_eq!(zone_extent_line(&z), Some(s("~4 x 5 m")));
    z.extent = Some(Extent { w: f(1.0), d: f(9.0), text: s("~1 x 9 m") });
    assert_eq!(zone_extent_line(&z), Some(s("~4 x 5 m")), "too thin to be the extent");
    z.extent = Some(Extent { w: f(8.0), d: f(9.0), text: s("~8 x 9 m") });
    let c = gd_zone_info(PoiLayer::Minefield, &z);
    assert_eq!(c.title, "Minefield");
    assert_eq!(c.detail, vec![s("~8 x 9 m"), s("Minefield Low")]);
    assert_eq!(gd_zone_info(PoiLayer::SniperZone, &z).title, "Sniper zone");
}

#[test]
fn zone_cards_by_kind() {
    assert_eq!(gd_mine_info(&zone(None, Some("MON-50"))).title, "MON-50 directional mine");
    assert_eq!(gd_mine_info(&zone(None, Some(""))).title, "Directional mine");
    let t = gd_trigger_info(&zone(Some("q_kill"), Some("visit")));
    assert_eq!((t.title.as_str(), t.detail[0].as_str()), ("q_kill", "Visit / exploration zone"));
    assert_eq!(gd_trigger_info(&zone(Some(""), None)).title, "Quest zone");
    assert_eq!(gd_trader_info(&zone(None, None)).title, "Zone");
}

#[test]
fn door_cards_name_the_key() {
    let d = GdDoor {
        pos: at(0.0),
        key_id: Some(s("5780")),
        state: Some(Word { word: s("locked"), title: s("Locked") }),
        kind: s("trunk"),
        pretty: None,
        active: true,
        lock_dist: vec![],
    };
    let c = gd_door_info(&d, Some("Dorm key"));
    assert_eq!(c.title, "Dorm key");
    assert_eq!(c.subtitle, "Trunk \u{00B7} game files");
    assert_eq!(c.detail, vec![s("Key: 5780"), s("= Dorm key (tarkov.dev)"), s("State: Locked")]);
    assert_eq!(c.accent, poi_look(PoiLayer::Lock).color);
    assert_eq!(gd_door_info(&d, None).title, "Trunk");
}

#[test]
fn task_cards_have_tags() {
    let t = QuestTask {
        id: s("t"),
        name: s(""),
        trader: s("Prapor"),
        min_level: Some(12),
        kappa: true,
        lk: false,
        requires_tasks: vec![],
        objectives: vec![],
    };
    let o = QuestObjective { desc: s("Find it"), zones: vec![] };
    let c = quest_info(&t, &o);
    assert_eq!((c.title.as_str(), c.subtitle.as_str()), ("Task", "Task \u{00B7} Prapor"));
    assert_eq!(c.detail, vec![s("Find it"), s("Lvl 12  \u{00B7}  Kappa")]);
}

#[test]
fn spawn_cards() {
    let mut n = node();
    n.n = Some(3);
    n.ev = price(5000);
    let c = node_info(PoiLayer::PmcSpawn, &n);
    assert_eq!(c.detail, vec![s("Group \u{00D7}3"), s("Est. loot  5000 RUB")]);
    assert_eq!(node_info(PoiLayer::ScavSpawn, &n).detail, vec![s("Group \u{00D7}3")]);
    n.boss_title = Some(s("Cultist-priest"));
    n.chance = Some(s("35"));
    n.st = Some(900);
    n.escorts = vec![
        Escort { who: s("Cultist"), count: Some(2) },
        Escort { who: s("Guard"), count: Some(0) },
    ];
    n.locs = vec![
        BossLoc { name: s("Dorms"), chance: Some(Share { value: f(0.5), percent: s("50") }) },
        BossLoc { name: s("Gas"), chance: Some(Share { value: f(1.0), percent: s("100") }) },
    ];
    let c = node_info(PoiLayer::Boss, &n);
    assert_eq!(c.title, "Cultist-priest");
    assert_eq!(
        c.detail,
        vec![
            s("Chance 35%"),
            s("Spawns ~15 min in"),
            s("Escorts: 2\u{00D7} Cultist, Guard"),
            s("Zones: Dorms 50%  \u{00B7}  Gas"),
            s("Est. loot  5000 RUB"),
        ]
    );
    n.name = Some(s("Cultist Priest"));
    assert_eq!(node_info(PoiLayer::Boss, &n).title, "Cultist Priest");
}

#[test]
fn lock_cards_list_every_key() {
    let mut l = Lock { pos: at(0.0), lt_title: s("Door"), pw: 1, keys: vec![] };
    assert_eq!(lock_info(&l).detail, vec![s("No key listed")]);
    assert_eq!(lock_info(&l).title, "Locked");
    l.keys = vec![key("Red", 0, price(10)), key("Blue", 1, None)];
    let c = lock_info(&l);
    assert_eq!(c.title, "Red");
    assert_eq!(
        c.detail,
        vec![s("Needs: Red"), s("Value  10 RUB"), s("Or: Blue  [keycard]"), s("Power required")]
    );
    assert_ne!(c.accent, poi_look(PoiLayer::Lock).color);
}

#[test]
fn transit_cards_name_the_destination() {
    let t = Transit { pos: at(0.0), to_title: s("The lab dark"), desc: s("Transit to The Lab"), cond: s("Card") };
    let c = transit_info(&t);
    assert_eq!(c.title, "Transit \u{2192} The Lab");
    assert_eq!(c.detail, vec![s("Card")]);
    let t = Transit { desc: s("Through the tunnel"), cond: s(""), ..t };
    let c = transit_info(&t);
    assert_eq!(c.title, "Transit \u{2192} The lab dark");
    assert_eq!(c.detail, vec![s("Through the tunnel")]);
}

#[test]
fn plain_cards() {
    let h = Hazard { pos: at(0.0), ht_title: s("Mine"), name: s("Belt"), covered: false };
    assert_eq!((hazard_info(&h).title, hazard_info(&h).detail), (s("Belt"), vec![s("Mine")]));
    let h = Hazard { name: s(""), ..h };
    assert_eq!((hazard_info(&h).title, hazard_info(&h).detail.len()), (s("Mine"), 0));
    let sw = Switch { pos: at(0.0), name: s("Power"), st: s("lever") };
    assert_eq!(switch_info(&sw).detail, vec![s("Type: lever")]);
    let lo = Loose { pos: at(0.0), s: s("GPU"), n: s(""), pr: price(7), typed_dist2: vec![] };
    assert_eq!((loose_info(&lo).title, loose_info(&lo).detail), (s("GPU"), vec![s("Value  7 RUB")]));
    let p = Poi { p: at(0.0), name: s("x"), pretty: s(""), dist2: vec![] };
    assert_eq!(sem_info(PoiLayer::Door, &p).title, "Door");
    assert_eq!(sem_info(PoiLayer::Interactable, &p).title, "Loot prop");
}

#[test]
fn loose_points_show_their_pool() {
    let item = |n: &str, cat| GdLooseItem { tpl: None, n: Some(s(n)), s: None, pr: price(3), cat };
    let lo = GdLoose {
        pos: at(0.0),
        pretty: None,
        n: 2,
        active: false,
        items: vec![item("Barter", 1), item("Other", 0)],
        items_src: Some(s("tarkov.dev")),
    };
    let c = gd_loose_info(&lo);
    assert_eq!(c.title, "Loose loot");
    assert_eq!(
        c.detail,
        vec![
            s("Barter (category)"),
            s("Value  3 RUB"),
            s("Pool: 2 possible"),
            s("\u{00D7}2 spawn slots"),
            s("Inactive in scene"),
            s("pos: game files \u{00B7} items: tarkov.dev"),
        ]
    );
}

#[test]
fn the_catalog_lists_each_key_once_by_price() {
    let l = |x: f32, keys| Lock { pos: at(x), lt_title: s("Door"), pw: 0, keys };
    let locks = vec![
        l(1.0, vec![key("Cheap", 0, price(5)), key("", 0, None)]),
        l(2.0, vec![key("Dear", 1, price(50))]),
        l(3.0, vec![key("Cheap", 0, price(9))]),
    ];
    let c = key_catalog(&locks);
    assert_eq!(c.keys.len(), 2);
    assert_eq!(c.keys[0].name, "Dear");
    assert!(c.keys[0].card);
    assert_eq!(c.keys[1].price, Some(5), "the first lock names the price");
    assert_eq!(c.keys[1].lock_positions, vec![at(1.0), at(3.0)]);
}

#[test]
fn extracts_of_two_factions_are_one_marker() {
    let ex = |fac: &str, dist2| ExtractDev { pos: at(0.0), name: s("Train"), fac: faction(fac), dist2 };
    let mut src = sources();
    let mut n = no_nodes();
    let close = || f(8.99);
    n.extracts_dev = vec![
        ex("pmc", vec![]),
        ex("scav", vec![close()]),
        ex("pmc", vec![close(), close()]),
        ex("pmc", vec![f(9.0), f(9.0), f(9.0)]),
    ];
    src.loot = Some(n);
    let p = src.spawn_pois("bigmap");
    assert_eq!(p.markers.len(), 2, "three metres are far enough");
    let m: &Marker = &p.markers[0];
    assert_eq!(m.info.title, "Train  [All]");
    assert_eq!(m.tint, Some(Tint::Shared));
    assert_eq!(m.faction.as_ref().unwrap().0, "pmc+scav");
}

#[test]
fn typed_extracts_replace_the_listed_ones() {
    let mut src = sources();
    let mut n = no_nodes();
    n.extracts_dev =
        vec![ExtractDev { pos: at(0.0), name: s("Railway Exfil"), fac: faction("pmc"), dist2: vec![] }];
    src.loot = Some(n);
    let mut g = no_gamedata();
    g.exfils = vec![
        GdExfil {
            pos: at(0.0),
            name: s("NW Exfil"),
            faction: faction("secret"),
            outline: vec![at(0.0), at(1.0), at(2.0)],
            active: true,
            dev_dist: vec![f(60.0)],
        },
        GdExfil {
            pos: at(0.0),
            name: s("Far"),
            faction: faction("pmc"),
            outline: vec![],
            active: false,
            dev_dist: vec![f(60.5)],
        },
    ];
    src.gamedata = Some(g);
    src.semantics = Some(Semantics {
        extract: Some(vec![Poi { p: at(0.0), name: s("exit"), pretty: s("Exit"), dist2: vec![] }]),
        door: None,
        loot: None,
    });
    let p = src.spawn_pois("bigmap");
    assert_eq!(titles(&p), vec!["Railway Exfil  [Secret]", "Far  [PMC]"]);
    assert_eq!(p.markers[0].tint, Some(Tint::Secret));
    assert!(p.markers[1].inactive);
    assert_eq!(p.walls.len(), 1);
    assert_eq!(p.zones.exfils.len(), 1);
    assert!(p.zones.live);
}

#[test]
fn named_objects_are_kept_apart() {
    let poi = |name: &str, dist2| Poi { p: at(0.0), name: s(name), pretty: s(name), dist2 };
    let mut src = sources();
    src.semantics = Some(Semantics {
        extract: Some(vec![
            poi("Extractor_Fan", vec![]),
            poi("Gate", vec![f(0.0)]),
            poi("emergency_EXIT_light", vec![]),
        ]),
        door: Some(vec![
            poi("leaf", vec![]),
            poi("handle", vec![f(1.4)]),
            poi("other", vec![f(1.5), f(0.1)]),
        ]),
        loot: None,
    });
    let p = src.spawn_pois("bigmap");
    assert_eq!(titles(&p), vec!["Gate", "leaf", "other"]);
}

#[test]
fn guns_are_mined_from_the_geometry_as_a_last_resort() {
    let g = |mesh: &str, away| GeometryItem { pos: at(0.0), mesh: Some(s(mesh)), away };
    let mut src = sources();
    src.geometry =
        vec![g("NSV_reciever", vec![]), g("reciever_b", vec![f(2.9)]), g("sandbag_kord", vec![]), g("wall", vec![])];
    let p = src.spawn_pois("bigmap");
    assert_eq!(titles(&p), vec!["Stationary gun"]);
    let mut n = no_nodes();
    n.stationary = vec![Stationary { pos: at(0.0), name: s("Utes") }];
    src.loot = Some(n);
    assert_eq!(titles(&src.spawn_pois("bigmap")), vec!["Utes"]);
    src.loot = None;
    let mut gd = no_gamedata();
    gd.stationary = vec![GdStationary { pos: at(0.0), pretty: s("Kord"), active: false }];
    src.gamedata = Some(gd);
    assert_eq!(titles(&src.spawn_pois("bigmap")), vec!["Kord"]);
}

#[test]
fn covered_points_are_left_to_the_typed_data() {
    let mut src = sources();
    let mut n = no_nodes();
    n.hazards = vec![
        Hazard { pos: at(0.0), ht_title: s("Mine"), name: s("In"), covered: true },
        Hazard { pos: at(9.0), ht_title: s("Mine"), name: s("Out"), covered: false },
    ];
    n.loose = vec![
        Loose { pos: at(0.0), s: s("A"), n: s("A"), pr: None, typed_dist2: vec![f(100.0), f(6.2)] },
        Loose { pos: at(9.0), s: s("B"), n: s("B"), pr: None, typed_dist2: vec![f(6.25)] },
    ];
    src.loot = Some(n);
    let p = src.spawn_pois("bigmap");
    assert_eq!(titles(&p), vec!["Out", "B"]);
    assert_eq!(p.markers[1].value, Some(MarkerValue(0)));
    assert_eq!(p.markers[1].icon, Some(s("B")));
}

#[test]
fn tasks_are_listed_for_their_map() {
    let z = |map: &str, pos| QuestZone { map: s(map), pos, outline: vec![at(0.0), at(1.0), at(2.0)], top: f(3.0) };
    let task = |id: &str, zones| QuestTask {
        id: s(id),
        name: s(id),
        trader: s(""),
        min_level: None,
        kappa: false,
        lk: true,
        requires_tasks: vec![s("before")],
        objectives: vec![QuestObjective { desc: s("go"), zones }],
    };
    let mut src = sources();
    src.tasks = Some(vec![
        task("here", vec![z("bigmap", Some(at(1.0))), z("woods", Some(at(2.0)))]),
        task("there", vec![z("woods", Some(at(2.0)))]),
        task("nowhere", vec![z("bigmap", None)]),
    ]);
    let p = src.spawn_pois("bigmap");
    assert_eq!(layers(&p), vec![PoiLayer::Quest]);
    assert_eq!(p.markers[0].task.as_ref().unwrap().0, "here");
    assert_eq!(p.walls.len(), 1);
    assert_eq!(p.walls[0].task.as_ref().unwrap().0, "here");
    assert_eq!(p.quests.tasks.len(), 1);
    assert_eq!(p.quests.tasks[0].objectives[0].zones.len(), 1);
    assert_eq!(p.quests.tasks[0].requires_tasks, vec![s("before")]);
}

fn toggles() -> LayerToggles {
    LayerToggles {
        pmc_spawns: false,
        scav_spawns: false,
        bosses: false,
        extracts: true,
        doors: false,
        interactables: false,
        locks: false,
        hazards: false,
        switches: false,
        transits: false,
        stationary: false,
        loose: true,
        quests: true,
        minefields: false,
        sniper_zones: false,
        min_value: 100,
        hide_inactive: true,
    }
}

#[test]
fn toggles_decide_what_is_seen() {
    let t = toggles();
    assert!(t.poi_visible(PoiLayer::Extract, None, false));
    assert!(!t.poi_visible(PoiLayer::Extract, None, true));
    assert!(!t.poi_visible(PoiLayer::Door, None, false));
    assert!(t.poi_visible(PoiLayer::LooseLoot, None, false), "no value, no filter");
    assert!(!t.poi_visible(PoiLayer::LooseLoot, Some(MarkerValue(99)), false));
    assert!(t.poi_visible(PoiLayer::LooseLoot, Some(MarkerValue(100)), false));
    assert!(value_passes(0, Some(MarkerValue(-5))));
    assert!(visibility_is_stale(false, false, true) && !visibility_is_stale(false, false, false));
    let active = vec![s("t1")];
    assert!(t.quest_visible(&active, "t1", true));
    assert!(!t.quest_visible(&active, "t2", false));
    assert!(t.quest_visible(&vec![], "t2", false));
    assert!(!t.quest_visible(&vec![], "t2", true), "walls show for chosen tasks alone");
    assert!(quest_outlines_visible(&active, "t1") && !quest_outlines_visible(&active, "t2"));
    let flat = QuestZoneW { pos: at(0.0), outline: vec![at(0.0)], top: f(0.0) };
    assert!(!quest_outline_drawn(&flat));
}

#[test]
fn looks_and_walls() {
    assert_eq!(pick_radius(PoiLayer::Door), f(0.9));
    let r = poi_look(PoiLayer::Boss).radius;
    assert_eq!(pick_radius(PoiLayer::Boss), r);
    let idx = zone_wall_indices(4);
    assert_eq!(idx.len(), 24);
    assert!(idx.iter().all(|i| *i < 8));
}

#[test]
fn the_nearest_usable_one_is_taken() {
    let d = vec![f(5.0), f(2.0), f(3.0), f(2.0)];
    assert_eq!(nearest_of(&d, &vec![true, true, true, true]), Some(1));
    assert_eq!(nearest_of(&d, &vec![true, false, true, false]), Some(2));
    assert_eq!(nearest_of(&d, &vec![false, false, false, false]), None);
}

#[test]
fn zones_with_an_area_cover_hazards() {
    let at = |name: &str, corners: usize| GdZone {
        outline: vec![V3 { x: F32 { bits: 0 }, y: F32 { bits: 0 }, z: F32 { bits: 0 } }; corners],
        ..zone(Some(name), None)
    };
    let mut g = no_gamedata();
    g.minefields = vec![at("m0", 2), at("m1", 3)];
    g.sniper_zones = vec![at("s", 4)];
    g.mines_directional = vec![at("d", 3)];
    g.quest_triggers = vec![at("q", 4)];
    g.trader_zones = vec![at("t", 5), at("u", 0)];
    g.transit_points = vec![at("w", 4)];
    let names: Vec<&str> = hazard_zones(&g).iter().map(|z| z.name.as_deref().unwrap()).collect();
    assert_eq!(names, vec!["m1", "s", "d", "t"]);
}
