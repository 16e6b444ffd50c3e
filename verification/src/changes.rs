//! What the small steps of the program do to its state: each statement holds of every outcome
//! that a step may have.
use crate::bake::grid::mark_moved;
use crate::bytes::{push_le16, push_le32};
use crate::f32bits::F32;
use crate::gpu::load::{EpochWatch, GpuLoadSignal, ShadowSwitch, TexRef, TexStream};
use crate::gpu::materials::V3;
use crate::gpu::meshes::extent_along;
use crate::gpu::paths::{position_is_first, PathTable};
use crate::loot_laws::open_candidates_are_offered_everywhere;
use crate::loot_run::{
    debug_plan_due, offers_of, poll_plan, stitch, Offer, PlanOutcome, RepairStep, Run, Threaded, Untangle, Weighed,
};
use crate::pathfind::{
    clear_route_on_start_move, debug_route_due, dispatch_route, manage_nav, poll_route, proper, teardown_nav,
    Dispatch, NavAction, NavTrace, PathfindServer, RouteBuild, RouteFound, RouteOpts, RouteOutcome, RouteRequest,
    RouteResult, ServerCmd, SpawnPoint, StatusView, Variant,
};
use crate::planner::PlanResult;
use crate::post::passes::{check_due, AoFill, AoTarget, BoundViews, FpvCamFx, LinkEnds};
use crate::progress::PlayerProgress;
use crate::standard::{key_views, TexCache};
use crate::standard_laws::pictures_are_numbered_as_asked_for;
use crate::texture::prepare::sampled_alpha;
use vstd::prelude::*;

verus! {

/// A check falls due once, on the ninetieth frame or the first one looked at after it.
pub proof fn checks_fall_due_once(fired: &mut bool, frame: u32, due: bool)
    requires
        call_ensures(check_due, (fired, frame), due),
    ensures
        *old(fired) ==> !due && *final(fired),
        !*old(fired) ==> (due <==> frame >= 90) && *final(fired) == due,
{
}

/// A scripted run is planned once, on the twenty-fifth frame.
pub proof fn scripted_runs_are_planned_once(frame: &mut u32, done: &mut bool, due: bool)
    requires
        call_ensures(debug_plan_due, (frame, done), due),
    ensures
        *old(done) ==> !due && *final(done),
        !*old(done) ==> (due <==> *old(frame) >= 24) && *final(done) == due && *final(frame) == *old(frame) + 1,
{
}

/// A scripted route is searched for once, on the twentieth frame.
pub proof fn scripted_routes_are_searched_once(frame: &mut u32, done: &mut bool, due: bool)
    requires
        call_ensures(debug_route_due, (frame, done), due),
    ensures
        *old(done) ==> !due && *final(done),
        !*old(done) ==> (due <==> *old(frame) >= 19) && *final(done) == due && *final(frame) == *old(frame) + 1,
{
}

/// A probe that was moved counts as open; of the others nothing changes.
pub proof fn moved_probes_count_as_open(validity: &mut Vec<u8>, moved: &Vec<bool>, i: int)
    requires
        moved@.len() == old(validity)@.len(),
        call_ensures(mark_moved, (validity, moved), ()),
        0 <= i < moved@.len(),
    ensures
        final(validity)@.len() == old(validity)@.len(),
        moved@[i] ==> final(validity)@[i] == 255,
        !moved@[i] ==> final(validity)@[i] == old(validity)@[i],
{
}

/// Two lines that meet are joined at the point that they share, which is kept once.
pub proof fn joined_lines_share_a_point(line: &mut Vec<V3>, leg: &Vec<V3>, i: int)
    requires
        leg@.len() > 0,
        call_ensures(stitch, (line, leg), ()),
        0 <= i,
    ensures
        old(line)@.len() == 0 ==> final(line)@ == leg@,
        old(line)@.len() > 0 ==> {
            &&& final(line)@.len() == old(line)@.len() + leg@.len() - 1
            &&& (i < old(line)@.len() ==> final(line)@[i] == old(line)@[i])
            &&& (1 <= i < leg@.len() ==> final(line)@[old(line)@.len() + i - 1] == leg@[i])
        },
{
    assert(Seq::<V3>::empty() + leg@ =~= leg@);
    if old(line)@.len() == 0 {
        assert(old(line)@ =~= Seq::<V3>::empty());
    }
}

/// A plan that was found is shown as the only route; one that failed leaves the route, unless it
/// waits.
pub proof fn found_plans_become_the_route(
    outcome: PlanOutcome,
    plan: &mut PlanResult,
    route: &mut RouteResult,
    r: Option<usize>,
)
    requires
        outcome matches PlanOutcome::Found(p) ==> p.stops@.len() < usize::MAX,
        call_ensures(poll_plan, (outcome, plan, route), r),
    ensures
        r is Some <==> outcome is Found,
        outcome matches PlanOutcome::Found(p) ==> {
            &&& r->0 == p.stops@.len() + 1
            &&& final(plan)@.status is Ready
            &&& final(plan)@.stops.len() == p.stops@.len()
            &&& final(plan)@.total_value == p.total_value
            &&& final(plan)@.total_dist == p.total_dist
            &&& final(plan)@.total_time == p.total_time
            &&& final(plan)@.extract == p.extract@
            &&& final(route)@.status is Ready
            &&& final(route)@.options.len() == 1
            &&& final(route)@.options[0].points == p.polyline@
            &&& final(route)@.options[0].dist == p.total_dist
        },
        outcome matches PlanOutcome::Failed(e) ==> {
            &&& final(plan)@.status == StatusView::Error(e@)
            &&& (old(route)@.status is Pending ==> final(route)@.status == StatusView::Error(e@))
            &&& (!(old(route)@.status is Pending) ==> final(route)@ == old(route)@)
        },
{
}

/// A route is dropped when its start moves: not when the start is new, and not when there is
/// nothing to drop.
pub proof fn moved_starts_drop_the_route(changed: bool, added: bool, running: bool, result: &mut RouteResult, drop: bool)
    requires
        call_ensures(clear_route_on_start_move, (changed, added, running, result), drop),
    ensures
        !changed || added ==> !drop,
        !running && old(result)@.status is Idle ==> !drop,
        changed && !added && running ==> drop,
        changed && !added && !(old(result)@.status is Idle) ==> drop,
        !drop ==> final(result)@ == old(result)@,
        drop ==> final(result)@.status is Idle && final(result)@.options.len() == 0
            && final(result)@.points.len() == 0,
{
}

/// The grid of a pack is loaded once: when the pack is first seen.
pub proof fn grids_are_loaded_once(seen: &mut Option<u64>, epoch: u64, pack: bool, cmds: &Vec<ServerCmd>, r: Vec<NavAction>)
    requires
        call_ensures(manage_nav, (seen, epoch, pack, cmds), r),
        cmds@.len() == 0,
    ensures
        !pack ==> *final(seen) == *old(seen) && r@.len() == 0,
        pack ==> *final(seen) == Some(epoch),
        pack && *old(seen) == Some(epoch) ==> r@.len() == 0,
        pack && *old(seen) != Some(epoch) ==> r@.len() == 1 && r@[0] is Load,
{
}

/// A way of another length joins those that were found, and its end is named where none is yet.
pub proof fn found_ways_are_kept(b: &mut RouteBuild, variant: Variant, found: Option<RouteFound>, differences: &Vec<F32>)
    requires
        call_ensures(RouteBuild::push, (b, variant, found, differences), ()),
    ensures
        found is None ==> final(b).options@.len() == old(b).options@.len(),
        found is Some && differences@.len() == 0 ==> {
            &&& final(b).options@.len() == old(b).options@.len() + 1
            &&& final(b).options@.last().points@ == found->0.points@
            &&& final(b).options@.last().dist == found->0.dist
        },
{
    let a = crate::pathfind::option_views(old(b).options@);
    let z = crate::pathfind::option_views(final(b).options@);
    if found is Some && differences@.len() == 0 {
        assert(z.len() == a.len() + 1);
        assert(z[a.len() as int].points == found->0.points@);
    }
}

/// What was tracked, done and owned is taken over from the saved progress, and else stays.
pub proof fn saved_progress_is_taken_over(
    p: &mut PlayerProgress,
    saved: Option<PlayerProgress>,
    active: Option<Vec<String>>,
)
    requires
        call_ensures(PlayerProgress::load_progress, (p, saved), active),
    ensures
        final(p).loaded,
        active is Some <==> saved is Some,
        saved is Some ==> final(p).done == saved->0.done && final(p).owned_keys == saved->0.owned_keys
            && final(p).tracked_tasks == saved->0.tracked_tasks,
        saved is Some ==> active->0@.len() == saved->0.tracked_tasks@.len(),
        saved is None ==> final(p).done == old(p).done && final(p).owned_keys == old(p).owned_keys
            && final(p).tracked_tasks == old(p).tracked_tasks,
{
    if saved is Some {
        assert(crate::text::texts(active->0@).len() == crate::text::texts(saved->0.tracked_tasks@).len());
    }
}

/// The signal is up from the beginning of a load to its end.
pub proof fn loads_are_signalled(a: &mut GpuLoadSignal, b: &mut GpuLoadSignal)
    requires
        call_ensures(GpuLoadSignal::begin, (a,), ()),
        call_ensures(GpuLoadSignal::finish, (b,), ()),
    ensures
        final(a).raised,
        !final(b).raised,
{
}

/// Another pack resets what was built for the last one; the first pack has nothing to reset.
pub proof fn another_pack_resets(w: &mut EpochWatch, epoch: Option<u64>, reset: bool)
    requires
        call_ensures(EpochWatch::observe, (w, epoch), reset),
    ensures
        epoch is None ==> !reset && final(w).last == old(w).last,
        epoch is Some ==> final(w).last == epoch,
        old(w).last is None ==> !reset,
        epoch is Some && old(w).last is Some ==> (reset <==> old(w).last != epoch),
{
}

/// Shadows are on where they are wanted and allowed, and the map has a sun.
pub proof fn shadows_are_on_where_wanted(s: &mut ShadowSwitch, wanted: bool)
    requires
        call_ensures(ShadowSwitch::sync, (s, wanted), ()),
    ensures
        !wanted ==> !final(s).enabled,
        !old(s).sun_ok ==> !final(s).enabled,
        !old(s).env_enabled ==> !final(s).enabled,
        wanted && old(s).sun_ok && old(s).env_enabled ==> final(s).enabled,
        final(s).sun_ok == old(s).sun_ok && final(s).env_enabled == old(s).env_enabled,
{
}

/// The next texture to upload is the first that is not done: colours first, then directions.
pub proof fn textures_come_in_order(t: &mut TexStream, r: Option<TexRef>, k: int)
    requires
        old(t).wf(),
        old(t).cursor == 0,
        call_ensures(TexStream::next, (t,), r),
        0 <= k,
    ensures
        r is None ==> {
            &&& (k < old(t).albedo_done@.len() ==> old(t).albedo_done@[k])
            &&& (k < old(t).normal_done@.len() ==> old(t).normal_done@[k])
        },
        r is Some && !r->0.normal ==> {
            &&& r->0.index < old(t).albedo_done@.len()
            &&& !old(t).albedo_done@[r->0.index as int]
            &&& (k < r->0.index ==> old(t).albedo_done@[k])
        },
        r is Some && r->0.normal ==> {
            &&& r->0.index < old(t).normal_done@.len()
            &&& !old(t).normal_done@[r->0.index as int]
            &&& (k < r->0.index ==> old(t).normal_done@[k])
            &&& (k < old(t).albedo_done@.len() ==> old(t).albedo_done@[k])
        },
{
    let n = old(t).albedo_done@.len();
    assert(k < n ==> old(t).done_at(k) == old(t).albedo_done@[k]);
    assert(old(t).done_at(n + k) == old(t).normal_done@[k]);
}

/// Marking a texture marks that one alone.
pub proof fn uploads_are_marked(t: &mut TexStream, x: TexRef, k: int)
    requires
        old(t).wf(),
        x.normal ==> x.index < old(t).normal_done@.len(),
        !x.normal ==> x.index < old(t).albedo_done@.len(),
        call_ensures(TexStream::mark, (t, x), ()),
        0 <= k,
    ensures
        x.normal ==> final(t).normal_done@[x.index as int],
        !x.normal ==> final(t).albedo_done@[x.index as int],
        k < old(t).albedo_done@.len() && (x.normal || k != x.index) ==> final(t).albedo_done@[k]
            == old(t).albedo_done@[k],
        k < old(t).normal_done@.len() && (!x.normal || k != x.index) ==> final(t).normal_done@[k]
            == old(t).normal_done@[k],
{
}

/// The picture of occlusion is made where there is none of the size of the screen, and is white.
pub proof fn occlusion_starts_white(a: &mut AoTarget, w: u32, h: u32, r: Option<AoFill>, i: int)
    requires
        1 <= w <= 0x4000,
        1 <= h <= 0x4000,
        call_ensures(AoTarget::prepare_ao_target, (a, w, h), r),
        0 <= i,
    ensures
        final(a).exists && final(a).width == w && final(a).height == h,
        r is None <==> old(a).exists && old(a).width == w && old(a).height == h,
        r is Some ==> {
            &&& r->0.row % 256 == 0
            &&& w <= r->0.row < w + 256
            &&& r->0.bytes@.len() == r->0.row * h
            &&& (i < r->0.bytes@.len() ==> r->0.bytes@[i] == 255)
        },
{
}

/// Numbers are written from their lowest byte up.
pub proof fn numbers_are_written_low_byte_first(a: &mut Vec<u8>, b: &mut Vec<u8>, x: u32, y: u16)
    requires
        call_ensures(push_le32, (a, x), ()),
        call_ensures(push_le16, (b, y), ()),
    ensures
        final(a)@.len() == old(a)@.len() + 4,
        final(a)@.take(old(a)@.len() as int) == old(a)@,
        ({
            let t = final(a)@.skip(old(a)@.len() as int);
            x == t[0] + 256 * t[1] + 65536 * t[2] + 16777216 * t[3]
        }),
        final(b)@.len() == old(b)@.len() + 2,
        final(b)@.take(old(b)@.len() as int) == old(b)@,
        ({
            let t = final(b)@.skip(old(b)@.len() as int);
            y == t[0] + 256 * t[1]
        }),
{
    assert(final(a)@.take(old(a)@.len() as int) =~= old(a)@);
    assert(final(b)@.take(old(b)@.len() as int) =~= old(b)@);
}

/// The sides of a box are told apart by their axis, and the texels looked at are a hundred and
/// one apart, each of four bytes of which the last is alpha.
pub proof fn sides_and_texels_stand_in_order(x: F32, y: F32, z: F32, rgba: Seq<u8>, i: int)
    ensures
        extent_along(x, y, z, 0) == x,
        extent_along(x, y, z, 1) == y,
        extent_along(x, y, z, 2) == z,
        sampled_alpha(rgba, i) == rgba[4 * (101 * i) + 3],
{
    assert(4 * (101 * i) == 404 * i);
}

/// A trace is played for as long as it lasts, and never starts again by itself.
pub proof fn traces_stop(t: &mut NavTrace, seconds: F32)
    requires
        call_ensures(NavTrace::shown_for, (t, seconds), ()),
    ensures
        !old(t).playing ==> !final(t).playing,
        seconds.bits == 0 && old(t).playing ==> final(t).playing,
        final(t).nodes == old(t).nodes,
{
}

/// A server runs just if it has a grid.
pub proof fn servers_run_with_a_grid(a: &mut PathfindServer, grid: bool)
    requires
        call_ensures(PathfindServer::loaded, (a, grid), ()),
    ensures
        final(a).status is Running <==> grid,
        final(a).status is Stopped <==> !grid,
{
}

/// A binding is made anew just if it is of other pictures than the last one.
pub proof fn bindings_are_kept(v: &mut BoundViews, a: u64, b: u64, anew: bool)
    requires
        call_ensures(BoundViews::bind, (v, a, b), anew),
    ensures
        final(v).bound == Some((a, b)),
        old(v).bound == Some((a, b)) ==> !anew,
        old(v).bound is None ==> anew,
        old(v).bound matches Some((x, y)) ==> (anew <==> x != a || y != b),
{
}

/// A picture is read once: the second time it is wanted, it is the one that is there.
pub proof fn pictures_are_read_once(
    c: &mut TexCache,
    path: &str,
    flip: bool,
    r: (usize, bool),
    d: &mut TexCache,
    q: (usize, bool),
)
    requires
        call_ensures(TexCache::want, (c, path, flip), r),
        *old(d) == *final(c),
        call_ensures(TexCache::want, (d, path, flip), q),
    ensures
        !q.1,
        q.0 == r.0,
        r.1 ==> r.0 == old(c).keys@.len(),
{
    let k = (path@, flip);
    let (v, w) = (key_views(old(c).keys@), key_views(final(c).keys@));
    pictures_are_numbered_as_asked_for(v, k);
    pictures_are_numbered_as_asked_for(w, k);
    if r.1 {
        assert(w[v.len() as int] == k);
        assert forall|j: int| 0 <= j < v.len() implies #[trigger] w[j] != k by {
            assert(v[j] == w[j]);
        }
    }
    assert(w.contains(k)) by {
        assert(w[r.0 as int] == k);
    }
}

/// A path has one place: interning it twice gives the same, and changes nothing.
pub proof fn paths_are_interned_once(t: &mut PathTable, p: &str, i: u32, u: &mut PathTable, j: u32)
    requires
        old(t)@.len() < 0xffff_fffe,
        call_ensures(PathTable::intern, (t, p), i),
        *old(u) == *final(t),
        call_ensures(PathTable::intern, (u, p), j),
    ensures
        i == j,
        final(u)@ == final(t)@,
        final(t)@[i as int] == p@,
        old(t)@.is_prefix_of(final(t)@),
{
    position_is_first(old(t)@, p@);
    position_is_first(final(t)@, p@);
    if i == old(t)@.len() {
        assert(final(t)@[i as int] == p@);
        assert forall|j: int| 0 <= j < old(t)@.len() implies final(t)@[j] != p@ by {
            assert(old(t)@[j] == final(t)@[j]);
        }
    }
}

/// The best offer that fits is taken on: one stop more, the others in their order; where none
/// fits, nothing changes.
pub proof fn the_best_offer_is_taken(
    run: &mut Run,
    offers: &Vec<Offer>,
    weighed: &Vec<Weighed>,
    budget: F32,
    r: Option<usize>,
    i: int,
)
    requires
        old(run).inserting(),
        old(run).tour@.len() < old(run).max_stops,
        offers@ == offers_of(old(run).used@, old(run).tour@.len(), old(run).used@.len()),
        weighed@.len() == offers@.len(),
        call_ensures(Run::insert_best, (run, offers, weighed, budget), r),
        0 <= i < old(run).tour@.len(),
    ensures
        r is None ==> final(run).tour@ == old(run).tour@,
        r matches Some(k) ==> {
            &&& k < offers@.len()
            &&& final(run).tour@.len() == old(run).tour@.len() + 1
            &&& final(run).tour@[offers@[k as int].slot as int] == offers@[k as int].cand
            &&& (i < offers@[k as int].slot ==> final(run).tour@[i] == old(run).tour@[i])
            &&& (i >= offers@[k as int].slot ==> final(run).tour@[i + 1] == old(run).tour@[i])
        },
{
    let n = old(run).tour@.len();
    let used = old(run).used@;
    assert(used.len() == old(run).used.len());
    if r is Some {
        open_candidates_are_offered_everywhere(used, n, used.len());
        let o = offers@[r->0 as int];
        assert(offers_of(used, n, used.len()).contains(o));
        assert(o.slot <= n);
    }
}

/// A part of a tour is turned round where that is shorter, and nowhere else.
pub proof fn shorter_ways_are_taken(u: &mut Untangle, tour: &mut Vec<usize>, turned_way: F32, as_is: F32)
    requires
        old(u).valid(),
        !old(u).done,
        old(u).n == old(tour)@.len(),
        call_ensures(Untangle::answer, (u, tour, turned_way, as_is), ()),
    ensures
        !turned_way.lt(as_is) ==> final(tour)@ == old(tour)@,
        final(u).n == old(u).n,
{
}

/// A run is tried six times at most, and refused at once when it has no stop.
pub proof fn runs_are_tried_six_times(run: &Run, tries: &mut u32, r: Option<String>)
    requires
        *old(tries) <= 6,
        call_ensures(Run::begin_try, (run, tries), r),
    ensures
        *final(tries) <= 6,
        *old(tries) == 6 ==> r is Some,
        *old(tries) < 6 ==> *final(tries) == *old(tries) + 1 && (r is Some <==> run.tour@.len() == 0),
{
}

/// A run that takes too long loses one stop, three times at most; one that fits is accepted as it
/// is; a stop that cannot be reached is left out.
pub proof fn long_runs_lose_a_stop(run: &mut Run, t: &Threaded, repairs: &mut u32, r: RepairStep)
    requires
        old(run).valid(),
        *old(repairs) <= 3,
        old(run).tour@.len() > 0,
        match *t {
            Threaded::Blocked(k) => k < old(run).tour@.len(),
            Threaded::NoExit => true,
            Threaded::Walked { rates, .. } => rates@.len() == old(run).tour@.len(),
        },
        call_ensures(Run::repair, (run, t, repairs), r),
    ensures
        *t is NoExit ==> r is Fail && final(run).tour@ == old(run).tour@,
        *t matches Threaded::Blocked(k) ==> r is Again && final(run).tour@ == old(run).tour@.remove(k as int)
            && *final(repairs) == *old(repairs),
        *t matches Threaded::Walked { time, limit, rates } ==> {
            &&& (r is Accept <==> time.nan() || limit.nan() || time.le(limit) || old(run).tour@.len() == 1)
            &&& (r is Accept ==> final(run).tour@ == old(run).tour@)
            &&& (r is Fail ==> *old(repairs) == 3)
            &&& (r is Again ==> *old(repairs) < 3 && *final(repairs) == *old(repairs) + 1)
        },
{
}

/// The last request of a frame counts: one without a destination takes the route away, one
/// without a grid fails, any other starts a search.
pub proof fn the_last_request_counts(
    requests: &Vec<RouteRequest>,
    grid: bool,
    pin: Option<V3>,
    camera: Option<V3>,
    opts: RouteOpts,
    spawns: &Vec<SpawnPoint>,
    result: &mut RouteResult,
    r: Dispatch,
)
    requires
        call_ensures(dispatch_route, (requests, grid, pin, camera, opts, spawns, result), r),
    ensures
        r is Nothing <==> requests@.len() == 0,
        r is Cancel <==> requests@.len() > 0 && requests@.last().dests@.len() == 0,
        r is NoGrid <==> requests@.len() > 0 && requests@.last().dests@.len() > 0 && !grid,
        r is Start <==> requests@.len() > 0 && requests@.last().dests@.len() > 0 && grid,
        r is Nothing ==> final(result)@ == old(result)@,
        r is Cancel ==> final(result)@.status is Idle,
        r is NoGrid ==> final(result)@.status is Error,
        r is Start ==> final(result)@.status is Pending && final(result)@.points == old(result)@.points,
{
}

/// A map that goes takes its route, its trace and its pin with it.
pub proof fn maps_take_their_route_with_them(
    result: &mut RouteResult,
    trace: &mut NavTrace,
    pin: &mut Option<V3>,
    placing: &mut bool,
)
    requires
        call_ensures(teardown_nav, (result, trace, pin, placing), ()),
    ensures
        final(result)@.status is Idle && final(result)@.points.len() == 0 && final(result)@.options.len() == 0,
        !final(trace).playing && final(trace).nodes@.len() == 0,
        *final(pin) is None && !*final(placing),
{
}

/// What a search has found is shown: its first way, and the trace where there is one to play. A
/// search that failed leaves nothing but its reason.
pub proof fn found_routes_are_shown(outcome: RouteOutcome, now: F32, result: &mut RouteResult, trace: &mut NavTrace)
    requires
        proper(outcome),
        call_ensures(poll_route, (outcome, now, result, trace), ()),
    ensures
        outcome matches RouteOutcome::Failed(e) ==> {
            &&& final(result)@.status == StatusView::Error(e@)
            &&& final(result)@.options.len() == 0
            &&& !final(trace).playing
        },
        outcome matches RouteOutcome::Found { options, label, nodes } ==> {
            &&& final(result)@.status is Ready
            &&& final(result)@.options.len() == options@.len()
            &&& final(result)@.points == options@[0].points@
            &&& final(result)@.dist == options@[0].dist
            &&& (final(trace).playing <==> nodes@.len() >= 2)
            &&& (nodes@.len() >= 2 ==> final(trace).nodes@ == nodes@ && final(trace).start_t == now)
        },
{
}

/// The look of a camera drone follows the time and the noise; where no link is measured, its
/// signal is full.
pub proof fn drone_looks_follow_the_noise(
    fx: &mut FpvCamFx,
    time: F32,
    aspect: Option<F32>,
    drone_mode: bool,
    noise: F32,
    agent: Option<LinkEnds>,
    rig: Option<LinkEnds>,
    r: Option<LinkEnds>,
)
    requires
        call_ensures(FpvCamFx::update_fpv_fx, (fx, time, aspect, drone_mode, noise, agent, rig), r),
    ensures
        final(fx).time == time && final(fx).intensity == noise,
        aspect is Some ==> final(fx).aspect == aspect->0,
        aspect is None ==> final(fx).aspect == old(fx).aspect,
        !drone_mode || noise.bits == 0 ==> !final(fx).active,
        drone_mode && noise.bits == 0x3f80_0000 ==> final(fx).active,
        !final(fx).active ==> r is None,
        r is None ==> final(fx).signal.bits == 0x3f80_0000,
        r is Some ==> final(fx).signal == old(fx).signal,
{
}

} // verus!
