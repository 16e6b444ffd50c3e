use atlas::f32bits::F32;
use atlas::gpu::materials::V3;
use atlas::loot_run::{
    debug_plan_due, first_least, poll_plan, scripted_plan, stitch, teardown_plan, Offer, Plan, PlanOutcome, RepairStep,
    Run, Threaded, Untangle, Weighed,
};
use atlas::loot_search::{Search, Stage};
use atlas::pathfind::{
    clear_route_on_start_move, debug_route_due, dispatch_route, drawn_variant, finish_route, is_drawn_dimly, manage_nav,
    nearest_destination, poll_route, scripted_point, scripted_route, teardown_nav, Dispatch, Leg, NavAction, NavTrace,
    PathfindServer, RouteBuild, RouteFound, RouteOpts, RouteOption, RouteRequest, RouteResult, RouteStatus, ServerCmd,
    ServerStatus, SpawnPoint, TraceNode, Variant,
};
use atlas::planner::{
    dispatch_plan, Cand, Exit, LockKeys, LootMarker, MapMark, PlanDispatch, PlanInput, PlanJob, PlanRequest, PlanResult,
    PlanStatus, PlanStop,
};
use atlas::poi::layer::PoiLayer;
use atlas::progress::PlayerProgress;

fn f(x: f32) -> F32 {
    F32 { bits: x.to_bits() }
}

fn at(x: f32) -> V3 {
    V3 { x: f(x), y: f(0.0), z: f(0.0) }
}

fn s(x: &str) -> String {
    x.to_string()
}

fn opts() -> RouteOpts {
    RouteOpts { avoid_boss: false, avoid_pmc: false, avoid_scav: false, visualize: false }
}

fn request(dests: Vec<V3>) -> RouteRequest {
    RouteRequest { start: None, dests, optimize_order: false, nearest_of: false, labels: vec![s("first")] }
}

fn option(name: &str, n: usize, dist: f32) -> RouteOption {
    RouteOption { name: s(name), points: vec![at(1.0); n], dist: f(dist) }
}

fn trace() -> NavTrace {
    NavTrace { nodes: vec![], max_g: f(0.0), start_t: f(0.0), playing: false }
}

fn error_text(st: &RouteStatus) -> &str {
    match st {
        RouteStatus::Error(e) => e,
        _ => "",
    }
}

#[test]
fn the_environment_lists_what_is_avoided() {
    let o = RouteOpts::from_env(Some("Boss, scav"), &Some(s("1")));
    assert!(o.avoid_boss && !o.avoid_pmc && o.avoid_scav && o.visualize);
    let o = RouteOpts::from_env(None, &None);
    assert_eq!(o, opts());
}

#[test]
fn requests_are_dispatched() {
    let mut r = RouteResult::default();
    let no: Vec<RouteRequest> = vec![];
    assert!(matches!(dispatch_route(&no, true, None, None, opts(), &vec![], &mut r), Dispatch::Nothing));
    assert!(matches!(r.status, RouteStatus::Idle));
    let reqs = vec![request(vec![at(9.0)]), request(vec![at(1.0), at(2.0)])];
    let spawns = vec![
        SpawnPoint { layer: PoiLayer::Boss, pos: at(5.0) },
        SpawnPoint { layer: PoiLayer::PmcSpawn, pos: at(6.0) },
    ];
    let o = RouteOpts { avoid_boss: true, visualize: true, ..opts() };
    match dispatch_route(&reqs, true, Some(at(3.0)), Some(at(4.0)), o, &spawns, &mut r) {
        Dispatch::Start(j) => {
            assert_eq!(j.start, at(3.0));
            assert_eq!(j.dests, vec![at(1.0), at(2.0)]);
            assert_eq!(j.leg, Leg::Tour);
            assert_eq!(j.avoid.len(), 1);
            assert_eq!((j.avoid[0].pos, j.avoid[0].radius), (at(5.0), f(45.0)));
            assert!(!j.visualize);
            assert_eq!(j.variants(), vec![Variant::Direct, Variant::Cautious, Variant::WideBerth]);
            assert!(j.found_label(0).is_none());
        }
        _ => panic!("not started"),
    }
    assert!(matches!(r.status, RouteStatus::Pending));
    let d = dispatch_route(&reqs, false, None, None, o, &spawns, &mut r);
    assert!(matches!(d, Dispatch::NoGrid));
    assert_eq!(error_text(&r.status), "no route data for this map (nav is baked during the map build)");
    let clear = vec![request(vec![])];
    assert!(matches!(dispatch_route(&clear, false, None, None, o, &spawns, &mut r), Dispatch::Cancel));
    assert!(matches!(r.status, RouteStatus::Idle));
}

#[test]
fn the_kind_of_request_decides_the_search() {
    let mut r = RouteResult::default();
    let mut req = request(vec![at(1.0), at(2.0)]);
    req.nearest_of = true;
    let d = dispatch_route(&vec![req], true, None, None, opts(), &vec![], &mut r);
    match d {
        Dispatch::Start(j) => {
            assert_eq!((j.leg, j.start), (Leg::NearestOf, at(0.0)));
            assert_eq!(j.variants(), vec![Variant::Direct]);
            assert_eq!(j.found_label(0), Some(s("first")));
            assert_eq!(j.found_label(1), None);
        }
        _ => panic!("not started"),
    }
    let mut req = request(vec![at(1.0), at(2.0)]);
    req.optimize_order = true;
    match dispatch_route(&vec![req], true, None, None, opts(), &vec![], &mut r) {
        Dispatch::Start(j) => {
            assert_eq!(j.leg, Leg::Chain);
            assert_eq!(j.found_label(0), Some(s("first")));
            assert_eq!(j.found_label(1), None);
        }
        _ => panic!("not started"),
    }
    let mut req = request(vec![at(1.0), at(2.0)]);
    req.labels = vec![s("first"), s("second"), s("third")];
    match dispatch_route(&vec![req], true, None, None, opts(), &vec![], &mut r) {
        Dispatch::Start(j) => {
            assert_eq!(j.leg, Leg::Tour);
            assert_eq!(j.found_label(0), Some(s("second")));
        }
        _ => panic!("not started"),
    }
    assert_eq!(nearest_destination(&vec![None, Some(f(4.0)), Some(f(3.0)), Some(f(3.0))]), Some(2));
    assert_eq!(nearest_destination(&vec![None]), None);
}

#[test]
fn variants_of_one_length_are_one() {
    let found = |d: f32| Some(RouteFound { points: vec![at(0.0), at(d)], dist: f(d), label: Some(s("x")) });
    let mut b = RouteBuild::new();
    b.push(Variant::Direct, found(10.0), &vec![]);
    b.push(Variant::Cautious, found(10.5), &vec![f(0.5)]);
    b.push(Variant::WideBerth, found(30.0), &vec![f(20.0)]);
    assert_eq!(b.options.len(), 2);
    assert_eq!(b.options[1].name, "Wide berth");
    let nodes = vec![TraceNode { pos: at(0.0), g: f(1.0) }, TraceNode { pos: at(1.0), g: f(7.0) }];
    let mut r = RouteResult::default();
    let mut t = trace();
    poll_route(finish_route(b, nodes), f(12.0), &mut r, &mut t);
    assert!(matches!(r.status, RouteStatus::Ready));
    assert_eq!((r.selected, r.dist, r.points.len()), (0, f(10.0), 2));
    assert_eq!(r.dest_label, Some(s("x")));
    assert!(t.playing && t.max_g == f(7.0) && t.start_t == f(12.0));
    r.select(1);
    assert_eq!(r.dist, f(30.0));
    r.select(9);
    assert_eq!(r.selected, 1);
    assert!(is_drawn_dimly(&r, 0) && !is_drawn_dimly(&r, 1) && !is_drawn_dimly(&r, 5));
    assert_eq!(drawn_variant(&r), Some(1));
    poll_route(finish_route(RouteBuild::new(), vec![]), f(13.0), &mut r, &mut t);
    assert_eq!(error_text(&r.status), "no walkable path found");
    assert!(!t.playing && r.options.is_empty() && r.points.is_empty());
}

#[test]
fn weights_and_names() {
    assert_eq!(Variant::Direct.weight(), None);
    assert_eq!(Variant::Cautious.weight(), Some(f(4.0)));
    assert_eq!(Variant::WideBerth.weight(), Some(f(12.0)));
}

#[test]
fn a_moved_start_makes_the_route_stale() {
    let mut r = RouteResult { options: vec![option("Direct", 2, 5.0)], ..RouteResult::default() };
    r.status = RouteStatus::Ready;
    assert!(!clear_route_on_start_move(false, false, false, &mut r));
    assert!(!clear_route_on_start_move(true, true, false, &mut r));
    assert_eq!(r.options.len(), 1);
    assert!(clear_route_on_start_move(true, false, false, &mut r));
    assert!(r.options.is_empty());
    assert!(!clear_route_on_start_move(true, false, false, &mut r));
    assert!(clear_route_on_start_move(true, false, true, &mut r));
}

#[test]
fn the_grid_is_loaded_once_for_each_map() {
    let mut seen = None;
    assert_eq!(manage_nav(&mut seen, 0, false, &vec![ServerCmd::Start]), vec![]);
    assert_eq!(manage_nav(&mut seen, 0, true, &vec![]), vec![NavAction::Load]);
    assert_eq!(manage_nav(&mut seen, 0, true, &vec![]), vec![]);
    assert_eq!(
        manage_nav(&mut seen, 1, true, &vec![ServerCmd::Stop, ServerCmd::Start]),
        vec![NavAction::Load, NavAction::Unload, NavAction::Load]
    );
    let mut p = PathfindServer { status: ServerStatus::Starting };
    p.stop_owned_child();
    assert_eq!(p.status, ServerStatus::Starting);
    p.loaded(true);
    assert_eq!(p.status, ServerStatus::Running);
    p.loaded(false);
    assert_eq!(p.status, ServerStatus::Stopped);
}

#[test]
fn a_new_map_drops_the_old_route() {
    let mut r = RouteResult { options: vec![option("Direct", 2, 5.0)], ..RouteResult::default() };
    let mut t = NavTrace { playing: true, ..trace() };
    let mut pin = Some(at(1.0));
    let mut placing = true;
    teardown_nav(&mut r, &mut t, &mut pin, &mut placing);
    assert!(r.options.is_empty() && !t.playing && pin.is_none() && !placing);
}

#[test]
fn routes_can_be_scripted() {
    assert_eq!(scripted_point(&vec![Some(f(1.0)), None, Some(f(2.0)), Some(f(3.0))]).unwrap().z, f(3.0));
    assert!(scripted_point(&vec![Some(f(1.0))]).is_none());
    assert!(scripted_route(&vec![at(1.0)]).is_none());
    let q = scripted_route(&vec![at(1.0), at(2.0), at(3.0)]).unwrap();
    assert_eq!((q.start, q.dests.len(), q.optimize_order), (Some(at(1.0)), 2, true));
    let (mut frame, mut done) = (18, false);
    assert!(!debug_route_due(&mut frame, &mut done));
    assert!(debug_route_due(&mut frame, &mut done));
    assert!(!debug_route_due(&mut frame, &mut done));
    let (mut frame, mut done) = (24, false);
    assert!(debug_plan_due(&mut frame, &mut done) && done);
    assert_eq!(scripted_plan(Some(1), None), (100_000, 10));
    assert_eq!(scripted_plan(Some(5000), Some(3)), (5000, 3));
}

fn loot(name: &str, value: i64) -> LootMarker {
    LootMarker {
        name: s(name),
        value,
        pos: at(value as f32),
        container: true,
        layer: None,
        loot_s: None,
        jackpot: false,
        lock_dist: vec![f(99.0), f(99.0)],
    }
}

fn input() -> PlanInput {
    PlanInput {
        grid: true,
        loot: vec![loot("low", 10), loot("b", 200), loot("a", 300), loot("c", 200)],
        locks: vec![LockKeys(vec![s("Red key")]), LockKeys(vec![])],
        marks: vec![
            MapMark { layer: PoiLayer::Extract, pos: at(50.0), name: s("Gate"), inactive: false },
            MapMark { layer: PoiLayer::Extract, pos: at(60.0), name: s("Shut"), inactive: true },
            MapMark { layer: PoiLayer::Boss, pos: at(70.0), name: s("B"), inactive: false },
        ],
        pin: None,
        camera: Some(at(4.0)),
        opts: RouteOpts { avoid_boss: true, ..opts() },
    }
}

fn plan_error(p: &PlanResult) -> &str {
    match &p.status {
        PlanStatus::Error(e) => e,
        _ => "",
    }
}

#[test]
fn a_plan_weighs_the_most_valuable_loot() {
    let mut plan = PlanResult::default();
    let mut route = RouteResult::default();
    let prog = PlayerProgress::new();
    let reqs = vec![PlanRequest { min_value: 100, max_stops: 5, budget_s: f(10.0) }];
    match dispatch_plan(&reqs, &input(), &prog, &mut plan, &mut route) {
        PlanDispatch::Start(j) => {
            let names: Vec<&str> = j.cands.iter().map(|c| c.name.as_str()).collect();
            assert_eq!(names, vec!["a", "b", "c"]);
            assert_eq!(j.cands[0].loot_s, f(5.0));
            assert_eq!((j.extracts.len(), j.extracts[0].name.as_str()), (1, "Gate"));
            assert_eq!((j.start, j.max_stops, j.budget), (at(4.0), 5, f(300.0)));
            assert_eq!(j.avoid.len(), 1);
        }
        _ => panic!("not started"),
    }
    assert!(matches!(plan.status, PlanStatus::Pending) && matches!(route.status, RouteStatus::Pending));
}

#[test]
fn locked_loot_needs_an_owned_key() {
    let mut i = input();
    i.loot[2].lock_dist = vec![f(14.0), f(1.0)];
    let reqs = vec![PlanRequest { min_value: 250, max_stops: 5, budget_s: f(900.0) }];
    let mut prog = PlayerProgress::new();
    let mut plan = PlanResult::default();
    let mut route = RouteResult::default();
    assert!(matches!(dispatch_plan(&reqs, &i, &prog, &mut plan, &mut route), PlanDispatch::Nothing));
    assert_eq!(plan_error(&plan), "no loot above the value filter on this map");
    prog.owned_keys.push(s("RED KEY"));
    assert!(matches!(dispatch_plan(&reqs, &i, &prog, &mut plan, &mut route), PlanDispatch::Start(_)));
    i.marks.remove(0);
    assert!(matches!(dispatch_plan(&reqs, &i, &prog, &mut plan, &mut route), PlanDispatch::Nothing));
    assert_eq!(plan_error(&plan), "no active extracts on this map");
    i.grid = false;
    assert!(matches!(dispatch_plan(&reqs, &i, &prog, &mut plan, &mut route), PlanDispatch::Nothing));
    assert_eq!(plan_error(&plan), "no route data for this map");
    let clear = vec![PlanRequest { max_stops: 0, ..reqs[0] }];
    assert!(matches!(dispatch_plan(&clear, &i, &prog, &mut plan, &mut route), PlanDispatch::Cancel));
    assert!(matches!(plan.status, PlanStatus::Idle));
}

fn job(n: usize) -> PlanJob {
    PlanJob {
        start: at(0.0),
        cands: (0..n)
            .map(|i| Cand { name: format!("c{i}"), value: 10 * i as i64, pos: at(i as f32), loot_s: f(5.0), jackpot: false })
            .collect(),
        extracts: vec![Exit { name: s("Gate"), pos: at(99.0) }],
        max_stops: 2,
        budget: f(900.0),
        avoid: vec![],
    }
}

#[test]
fn a_run_begins_with_what_can_be_reached() {
    let j = job(3);
    let run = Run::new(&j, true, &vec![true, false, true], &vec![true]).unwrap();
    assert_eq!(run.cands.len(), 2);
    assert_eq!(run.cands[1].name, "c2");
    let e = |r: Result<Run, String>| r.err().unwrap();
    assert_eq!(e(Run::new(&j, false, &vec![true; 3], &vec![true])), "start is off the walkable mesh");
    assert_eq!(
        e(Run::new(&j, true, &vec![false; 3], &vec![true])),
        "no reachable loot above the value filter within the budget"
    );
    assert_eq!(e(Run::new(&j, true, &vec![true; 3], &vec![false])), "no reachable extract within the budget");
}

fn weighed(v: &[(f32, f32)]) -> Vec<Weighed> {
    v.iter().map(|(total, score)| Weighed { total: f(*total), score: f(*score) }).collect()
}

#[test]
fn the_best_offer_is_inserted() {
    let mut run = Run::new(&job(3), true, &vec![true; 3], &vec![true]).unwrap();
    assert_eq!(run.check_inserted().err().unwrap(), "budget too small \u{2014} no loot fits before the extract");
    let o = run.offers();
    assert_eq!(o, vec![Offer { cand: 0, slot: 0 }, Offer { cand: 1, slot: 0 }, Offer { cand: 2, slot: 0 }]);
    assert_eq!(run.insert_best(&o, &weighed(&[(9.0, 1.0), (10.0, 3.0), (9.0, 3.0)]), f(10.0)), Some(1));
    assert_eq!(run.tour, vec![1]);
    assert!(run.wants_more());
    let o = run.offers();
    assert_eq!(o.len(), 4);
    assert_eq!(run.insert_best(&o, &weighed(&[(11.0, 9.0), (11.0, 9.0), (1.0, 0.5), (1.0, 0.25)]), f(10.0)), Some(2));
    assert_eq!(run.tour, vec![2, 1]);
    assert!(!run.wants_more());
    assert!(run.check_inserted().is_ok());
    let (stops, total) = run.stops(&vec![f(7.0), f(8.0)]);
    assert_eq!(total, 30);
    assert_eq!((stops[0].name.as_str(), stops[0].leg), ("c2", f(7.0)));
}

#[test]
fn crossings_are_looked_for_until_none_is_left() {
    let mut tour = vec![0, 1, 2];
    let mut u = Untangle::new(3);
    let mut pairs = Vec::new();
    let mut first = true;
    while !u.done {
        pairs.push((u.i, u.j));
        let better = first && (u.i, u.j) == (1, 3);
        if better {
            first = false;
        }
        u.answer(&mut tour, f(if better { 1.0 } else { 2.0 }), f(2.0));
    }
    assert_eq!(tour, vec![2, 1, 0]);
    assert_eq!(pairs, vec![(1, 2), (1, 3), (2, 3), (1, 2), (1, 3), (2, 3)]);
    assert!(Untangle::new(1).done);
}

#[test]
fn a_run_that_takes_too_long_gives_up_its_worst_stop() {
    let mut run = Run::new(&job(3), true, &vec![true; 3], &vec![true]).unwrap();
    run.tour = vec![2, 0, 1];
    let mut repairs = 0;
    assert!(matches!(run.repair(&Threaded::Blocked(1), &mut repairs), RepairStep::Again));
    assert_eq!((run.tour.clone(), repairs), (vec![2, 1], 0));
    let over = Threaded::Walked { time: f(2.0), limit: f(1.0), rates: vec![f(2.0), f(1.0)] };
    let mut spent = 3;
    match run.repair(&over, &mut spent) {
        RepairStep::Fail(e) => {
            assert_eq!(e, "couldn't fit a run into the budget (try fewer stops / larger budget)")
        }
        _ => panic!("not failed"),
    }
    assert!(matches!(run.repair(&over, &mut repairs), RepairStep::Again));
    assert_eq!((run.tour.clone(), repairs), (vec![2], 1));
    let over = Threaded::Walked { time: f(2.0), limit: f(1.0), rates: vec![f(2.0)] };
    assert!(matches!(run.repair(&over, &mut repairs), RepairStep::Accept));
    match run.repair(&Threaded::NoExit, &mut repairs) {
        RepairStep::Fail(e) => assert_eq!(e, "no walkable path to any extract"),
        _ => panic!("not failed"),
    }
    let mut tries = 5;
    assert!(run.begin_try(&mut tries).is_none());
    assert_eq!(
        run.begin_try(&mut tries).unwrap(),
        "couldn't fit a run into the budget (try fewer stops / larger budget)"
    );
    run.tour.clear();
    let mut tries = 0;
    assert_eq!(run.begin_try(&mut tries).unwrap(), "no reachable loot within the budget");
    assert_eq!(first_least(&vec![f(2.0), f(-1.0), f(-1.0)]), 1);
}

#[test]
fn legs_are_joined_without_doubling_points() {
    let mut line = vec![];
    stitch(&mut line, &vec![at(0.0), at(1.0)]);
    stitch(&mut line, &vec![at(1.0), at(2.0)]);
    assert_eq!(line, vec![at(0.0), at(1.0), at(2.0)]);
}

#[test]
fn a_finished_plan_is_shown_as_a_route() {
    let stop = PlanStop { name: s("x"), value: 7, pos: at(1.0), leg: f(3.0), loot_s: f(5.0) };
    let p = Plan {
        stops: vec![stop],
        extract: s("Gate"),
        polyline: vec![at(0.0), at(1.0)],
        total_dist: f(30.0),
        total_time: f(40.0),
        total_value: 7,
    };
    let mut plan = PlanResult::default();
    let mut route = RouteResult::default();
    assert_eq!(poll_plan(PlanOutcome::Found(p), &mut plan, &mut route), Some(2));
    assert!(matches!(plan.status, PlanStatus::Ready));
    assert_eq!(route.dest_label, Some(s("Loot run \u{2192} Gate")));
    assert_eq!((route.options[0].name.as_str(), route.dist), ("Loot run", f(30.0)));
    assert_eq!(poll_plan(PlanOutcome::Failed(s("no")), &mut plan, &mut route), None);
    assert_eq!(plan_error(&plan), "no");
    assert!(matches!(route.status, RouteStatus::Ready), "a shown route stays");
    route.status = RouteStatus::Pending;
    poll_plan(PlanOutcome::Failed(s("no")), &mut plan, &mut route);
    assert_eq!(error_text(&route.status), "no");
    teardown_plan(&mut plan, &mut route);
    assert!(matches!(plan.status, PlanStatus::Idle) && matches!(route.status, RouteStatus::Idle));
}

#[test]
fn a_search_goes_from_offers_to_a_run_that_fits() {
    let mut q = Search::begin(&job(3), true, &vec![true; 3], &vec![true]).unwrap();
    assert_eq!(q.run.max_stops, 2);
    assert_eq!(q.offers().len(), 3);
    assert_eq!(q.weigh(&weighed(&[(1.0, 1.0), (1.0, 2.0), (1.0, 3.0)]), f(5.0)), Some(2));
    assert!(matches!(q.stage, Stage::Weigh));
    assert_eq!(q.pair(), None);
    assert_eq!(q.weigh(&weighed(&[(1.0, 1.0), (1.0, 2.0), (1.0, 0.0), (1.0, 0.0)]), f(5.0)), Some(1));
    assert_eq!(q.run.tour, vec![2, 0]);
    assert_eq!(q.pair(), Some((1, 2)));
    q.compare(f(1.0), f(2.0));
    assert_eq!(q.run.tour, vec![0, 2], "turned around");
    assert_eq!(q.pair(), Some((1, 2)), "a sweep that found something is followed by another");
    q.compare(f(2.0), f(2.0));
    assert!(matches!(q.stage, Stage::Walk));
    q.walk(&Threaded::Walked { time: f(9.0), limit: f(8.0), rates: vec![f(2.0), f(1.0)] });
    assert_eq!((q.run.tour.clone(), q.tries, q.repairs), (vec![0], 2, 1));
    q.walk(&Threaded::Walked { time: f(8.0), limit: f(8.0), rates: vec![f(2.0)] });
    assert!(matches!(q.stage, Stage::Ready));
}

#[test]
fn a_search_ends_without_a_run_where_nothing_fits() {
    let mut q = Search::begin(&job(3), true, &vec![true; 3], &vec![true]).unwrap();
    assert_eq!(q.weigh(&weighed(&[(9.0, 1.0), (9.0, 2.0), (9.0, 3.0)]), f(5.0)), None);
    match &q.stage {
        Stage::Failed(e) => assert_eq!(e, "budget too small \u{2014} no loot fits before the extract"),
        _ => panic!("not failed"),
    }
    let mut q = Search::begin(&job(3), true, &vec![true; 3], &vec![true]).unwrap();
    q.weigh(&weighed(&[(1.0, 1.0), (9.0, 2.0), (9.0, 3.0)]), f(5.0));
    q.weigh(&weighed(&[(9.0, 0.0), (9.0, 0.0), (9.0, 0.0), (9.0, 0.0)]), f(5.0));
    assert!(matches!(q.stage, Stage::Walk), "one stop has no crossing");
    q.walk(&Threaded::Blocked(0));
    match &q.stage {
        Stage::Failed(e) => assert_eq!(e, "no reachable loot within the budget"),
        _ => panic!("not failed"),
    }
    assert!(Search::begin(&job(3), false, &vec![true; 3], &vec![true]).is_err());
}

#[test]
fn a_search_is_shown_for_two_seconds() {
    let mut t = trace();
    assert!(!t.is_shown());
    t.playing = true;
    t.nodes = vec![TraceNode { pos: at(0.0), g: f(0.0) }, TraceNode { pos: at(1.0), g: f(7.0) }];
    assert!(!t.is_shown(), "it has gone nowhere");
    t.max_g = f(7.0);
    assert!(t.is_shown());
    t.shown_for(f(2.0));
    assert!(t.is_shown());
    t.shown_for(f(2.5));
    assert!(!t.is_shown());
}
