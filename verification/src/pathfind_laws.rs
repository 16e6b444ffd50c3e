//! What routes are asked for and shown, said of the requests and the searches.
use crate::f32bits::{float, F32};
use crate::gpu::materials::V3;
use crate::pathfind::{
    as_long, cheapest, command_actions, commands_actions, danger_radius, dangers, drawn,
    drawn_dimly, farthest, job_for, leg_of, names_word, start_of, Danger, Leg, NavAction, RouteJob,
    RouteOpts, RouteRequest, RouteView, ServerCmd, SpawnPoint, StatusView, TraceNode, Variant,
};
use crate::poi::layer::PoiLayer;
use crate::text::{ascii_lowered, pieces, trimmed};
use vstd::prelude::*;

verus! {

/// Bosses are avoided by 45 metres, players' spawns by 32 and scavs' by 24, where that is asked for;
/// nothing else is avoided.
pub proof fn each_kind_of_spawn_is_avoided_as_asked(o: RouteOpts, l: PoiLayer)
    ensures
        danger_radius(o, l) is Some <==> (l == PoiLayer::Boss && o.avoid_boss || l == PoiLayer::PmcSpawn
            && o.avoid_pmc || l == PoiLayer::ScavSpawn && o.avoid_scav),
        l == PoiLayer::Boss && o.avoid_boss ==> danger_radius(o, l)->0.bits == 0x4234_0000,
        l == PoiLayer::PmcSpawn && o.avoid_pmc ==> danger_radius(o, l)->0.bits == 0x4200_0000,
        l == PoiLayer::ScavSpawn && o.avoid_scav ==> danger_radius(o, l)->0.bits == 0x41c0_0000,
{
}

/// Whether a spawn is of a kind that is avoided.
pub open spec fn is_avoided(o: RouteOpts, s: SpawnPoint) -> bool {
    match s.layer {
        PoiLayer::Boss => o.avoid_boss,
        PoiLayer::PmcSpawn => o.avoid_pmc,
        PoiLayer::ScavSpawn => o.avoid_scav,
        _ => false,
    }
}

/// The places to stay away from are those of the spawns that are avoided, in their order.
pub proof fn avoided_spawns_are_the_dangers(o: RouteOpts, spawns: Seq<SpawnPoint>, n: nat)
    requires
        n <= spawns.len(),
    ensures
        dangers(o, spawns, n).map_values(|d: Danger| d.pos) == spawns.take(n as int).filter(
            |s: SpawnPoint| is_avoided(o, s),
        ).map_values(|s: SpawnPoint| s.pos),
    decreases n,
{
    reveal(Seq::filter);
    let pred = |s: SpawnPoint| is_avoided(o, s);
    let at = |d: Danger| d.pos;
    let of = |s: SpawnPoint| s.pos;
    let s = spawns.take(n as int);
    if n > 0 {
        avoided_spawns_are_the_dangers(o, spawns, (n - 1) as nat);
        assert(s.drop_last() =~= spawns.take(n - 1));
        let rest = dangers(o, spawns, (n - 1) as nat);
        if is_avoided(o, spawns[n - 1]) {
            let d = Danger { pos: spawns[n - 1].pos, radius: danger_radius(o, spawns[n - 1].layer)->0 };
            assert(rest.push(d).map_values(at) =~= rest.map_values(at).push(d.pos));
            assert(s.filter(pred).map_values(of) =~= spawns.take(n - 1).filter(pred).map_values(of).push(
                spawns[n - 1].pos,
            ));
        }
    } else {
        assert(s =~= Seq::empty());
        assert(s.filter(pred) =~= Seq::empty());
    }
    assert(dangers(o, spawns, n).map_values(at) =~= s.filter(pred).map_values(of));
}

/// One destination is just walked to; of several the nearest counts where they are alternatives, and
/// else all do, in the best order where it may be chosen.
pub proof fn the_kind_of_search_follows_the_request(dests: nat, nearest_of: bool, optimize: bool)
    ensures
        leg_of(dests, nearest_of, optimize) == Leg::Single <==> dests == 1,
        leg_of(dests, nearest_of, optimize) == Leg::NearestOf <==> dests != 1 && nearest_of,
        leg_of(dests, nearest_of, optimize) == Leg::Chain <==> dests != 1 && !nearest_of && optimize,
        leg_of(dests, nearest_of, optimize) == Leg::Tour <==> dests != 1 && !nearest_of && !optimize,
{
}

/// A route starts where the request says, else at the pin, else at the camera, else at the origin.
pub proof fn routes_start_at_the_first_place_known(requested: Option<V3>, pin: Option<V3>, camera: Option<V3>)
    ensures
        requested is Some ==> start_of(requested, pin, camera) == requested->0,
        requested is None && pin is Some ==> start_of(requested, pin, camera) == pin->0,
        requested is None && pin is None && camera is Some ==> start_of(requested, pin, camera) == camera->0,
        requested is None && pin is None && camera is None ==> start_of(requested, pin, camera).x.bits == 0
            && start_of(requested, pin, camera).y.bits == 0 && start_of(requested, pin, camera).z.bits == 0,
{
}

/// A job is for the destinations and labels of its request, in their order, and only the search for a
/// single destination that is neither an alternative nor one of a chosen order is recorded.
pub proof fn jobs_are_for_their_requests(
    j: RouteJob,
    req: RouteRequest,
    pin: Option<V3>,
    camera: Option<V3>,
    opts: RouteOpts,
    spawns: Seq<SpawnPoint>,
)
    requires
        job_for(j, req, pin, camera, opts, spawns),
    ensures
        j.dests@ == req.dests@,
        j.labels@.len() == req.labels@.len(),
        forall|i: int| 0 <= i < j.labels@.len() ==> (#[trigger] j.labels@[i])@ == req.labels@[i]@,
        req.start is Some ==> j.start == req.start->0,
        j.visualize ==> opts.visualize && j.dests@.len() == 1,
        opts.visualize && req.dests@.len() == 1 && !req.nearest_of && !req.optimize_order ==> j.visualize,
        j.avoid@.map_values(|d: Danger| d.pos) == spawns.filter(
            |s: SpawnPoint| is_avoided(opts, s),
        ).map_values(|s: SpawnPoint| s.pos),
        !opts.avoid_boss && !opts.avoid_pmc && !opts.avoid_scav ==> j.avoid@.len() == 0,
{
    avoided_spawns_are_the_dangers(opts, spawns, spawns.len());
    assert(spawns.take(spawns.len() as int) =~= spawns);
    let a = crate::text::texts(j.labels@);
    let b = crate::text::texts(req.labels@);
    assert(a.len() == b.len());
    assert forall|i: int| 0 <= i < j.labels@.len() implies (#[trigger] j.labels@[i])@ == req.labels@[i]@ by {
        assert(a[i] == b[i]);
    }
    if !opts.avoid_boss && !opts.avoid_pmc && !opts.avoid_scav {
        nothing_is_avoided(opts, spawns, spawns.len());
    }
}

proof fn nothing_is_avoided(o: RouteOpts, spawns: Seq<SpawnPoint>, n: nat)
    requires
        n <= spawns.len(),
        !o.avoid_boss && !o.avoid_pmc && !o.avoid_scav,
    ensures
        dangers(o, spawns, n).len() == 0,
    decreases n,
{
    if n > 0 {
        nothing_is_avoided(o, spawns, (n - 1) as nat);
    }
}

/// The destination that counts is the first of those that can be reached and that none is nearer
/// than, where all lengths are numbers.
pub proof fn the_first_of_the_nearest_counts(dist: Seq<Option<F32>>, n: nat, k: int)
    requires
        n <= dist.len(),
        forall|j: int| 0 <= j < n && (#[trigger] dist[j]) is Some ==> !dist[j]->0.nan(),
    ensures
        cheapest(dist, n) == Some(k) <==> {
            &&& 0 <= k < n
            &&& dist[k] is Some
            &&& forall|j: int| 0 <= j < n && (#[trigger] dist[j]) is Some ==> dist[k]->0.rank() <= dist[j]->0.rank()
            &&& forall|j: int| 0 <= j < k && (#[trigger] dist[j]) is Some ==> dist[k]->0.rank() < dist[j]->0.rank()
        },
        cheapest(dist, n) is None <==> forall|j: int| 0 <= j < n ==> (#[trigger] dist[j]) is None,
    decreases n,
{
    if n > 0 {
        let m = (n - 1) as nat;
        the_first_of_the_nearest_counts(dist, m, k);
        if let Some(b) = cheapest(dist, m) {
            the_first_of_the_nearest_counts(dist, m, b);
        }
        assert(dist[m as int] == dist[n - 1]);
        if let Some(b) = cheapest(dist, n) {
            if cheapest(dist, m) is Some {
                let c = cheapest(dist, m)->0;
                assert(dist[c] is Some);
            }
            assert(dist[b] is Some);
        }
    }
}

/// Two variants count as one exactly where they differ by less than a metre.
pub proof fn variants_differ_by_a_metre(differences: Seq<F32>)
    ensures
        !as_long(differences) <==> forall|i: int|
            0 <= i < differences.len() ==> !(#[trigger] differences[i]).lt(float(0x3f80_0000)),
{
}

/// The largest distance of a recorded search is that of one of its nodes, or nothing; no node that
/// has a number is farther.
pub proof fn no_node_is_farther(nodes: Seq<TraceNode>, n: nat)
    requires
        n <= nodes.len(),
    ensures
        !farthest(nodes, n).nan(),
        0 <= farthest(nodes, n).rank(),
        forall|i: int| 0 <= i < n && !(#[trigger] nodes[i]).g.nan() ==> nodes[i].g.rank() <= farthest(nodes, n).rank(),
        farthest(nodes, n).bits == 0 || exists|i: int| 0 <= i < n && (#[trigger] nodes[i]).g == farthest(nodes, n),
    decreases n,
{
    if n > 0 {
        no_node_is_farther(nodes, (n - 1) as nat);
        let p = farthest(nodes, (n - 1) as nat);
        let g = nodes[n - 1].g;
        if p.lt(g) {
            assert(farthest(nodes, n) == g);
        } else {
            assert(farthest(nodes, n) == p);
        }
    }
}

/// A variant that is there can be chosen: its line and length are then those of the route, and
/// nothing else changes. One that is not there changes nothing.
pub proof fn a_chosen_variant_is_shown(r: RouteView, i: int)
    ensures
        0 <= i < r.options.len() ==> {
            &&& r.choosing(i).selected == i
            &&& r.choosing(i).points == r.options[i].points
            &&& r.choosing(i).dist == r.options[i].dist
        },
        !(0 <= i < r.options.len()) ==> r.choosing(i) == r,
        r.choosing(i).options == r.options,
        r.choosing(i).status == r.status,
        r.choosing(i).dest_label == r.dest_label,
        forall|j: int| 0 <= j < r.options.len() ==> #[trigger] r.choosing(i).choosing(j) == r.choosing(j),
{
}

/// Every variant with a line is drawn: the chosen one as the route, the others dimly; no other is.
pub proof fn variants_with_a_line_are_drawn(r: RouteView, i: int)
    requires
        0 <= i < r.options.len(),
    ensures
        drawn_dimly(r, i) || drawn(r) == Some(i) <==> r.options[i].points.len() >= 2,
        drawn(r) == Some(i) ==> i == r.selected,
        drawn_dimly(r, i) ==> i != r.selected,
{
}

/// A map's grid is loaded by a command to start, where there is a pack, and dropped by one to stop.
pub open spec fn acts_on_grid(c: ServerCmd, pack: bool) -> bool {
    c == ServerCmd::Stop || pack
}

/// Commands act in their order, each once: those to stop drop the grid, those to start load it, and
/// without a pack the latter do nothing.
pub proof fn commands_act_in_order(cmds: Seq<ServerCmd>, pack: bool, n: nat)
    requires
        n <= cmds.len(),
    ensures
        commands_actions(cmds, pack, n) == cmds.take(n as int).filter(
            |c: ServerCmd| acts_on_grid(c, pack),
        ).map_values(
            |c: ServerCmd|
                if c == ServerCmd::Stop {
                    NavAction::Unload
                } else {
                    NavAction::Load
                },
        ),
    decreases n,
{
    reveal(Seq::filter);
    let pred = |c: ServerCmd| acts_on_grid(c, pack);
    let f = |c: ServerCmd|
        if c == ServerCmd::Stop {
            NavAction::Unload
        } else {
            NavAction::Load
        };
    let s = cmds.take(n as int);
    if n > 0 {
        commands_act_in_order(cmds, pack, (n - 1) as nat);
        assert(s.drop_last() =~= cmds.take(n - 1));
        assert(s.last() == cmds[n - 1]);
        let before = cmds.take(n - 1).filter(pred);
        if pred(cmds[n - 1]) {
            assert(s.filter(pred) =~= before.push(cmds[n - 1]));
            assert(before.push(cmds[n - 1]).map_values(f) =~= before.map_values(f).push(f(cmds[n - 1])));
            assert(command_actions(cmds[n - 1], pack) =~= seq![f(cmds[n - 1])]);
        } else {
            assert(command_actions(cmds[n - 1], pack) =~= Seq::empty());
        }
    } else {
        assert(s =~= Seq::empty());
    }
    assert(commands_actions(cmds, pack, n) =~= s.filter(pred).map_values(f));
}

/// Without a route there is no line, no length, no variant and no label.
pub proof fn an_idle_route_is_empty()
    ensures
        RouteView::idle().points.len() == 0,
        RouteView::idle().options.len() == 0,
        RouteView::idle().dist.bits == 0,
        RouteView::idle().dest_label is None,
        RouteView::idle().status == StatusView::Idle,
{
}

/// A walk to one destination ends there, one through all in their order at the last, and any other
/// where the search says; the label of the route is that of the destination at which it ends.
pub proof fn routes_are_labelled_by_their_end(job: RouteJob, ends_at: int)
    ensures
        job.leg == Leg::Single ==> job.end_of_route(ends_at) == 0,
        job.leg == Leg::Tour ==> job.end_of_route(ends_at) + 1 == job.dests@.len(),
        job.leg == Leg::NearestOf || job.leg == Leg::Chain ==> job.end_of_route(ends_at) == ends_at,
        0 <= ends_at < job.labels@.len() ==> job.label_text(ends_at) == Some(job.labels@[ends_at]@),
        !(0 <= ends_at < job.labels@.len()) ==> job.label_text(ends_at) is None,
{
}

/// A list names a word exactly where one of its pieces between commas is the word, whatever spaces
/// stand around it and whether letters are large or small.
pub proof fn names_stand_between_commas(list: Seq<char>, word: Seq<char>)
    ensures
        names_word(list, word) <==> pieces(list, ',').map_values(
            |p: Seq<char>| ascii_lowered(trimmed(p)),
        ).contains(ascii_lowered(word)),
{
    let m = pieces(list, ',').map_values(|p: Seq<char>| ascii_lowered(trimmed(p)));
    if names_word(list, word) {
        let i = choose|i: int|
            0 <= i < pieces(list, ',').len() && ascii_lowered(trimmed(#[trigger] pieces(list, ',')[i]))
                == ascii_lowered(word);
        assert(m[i] == ascii_lowered(word));
    }
    if m.contains(ascii_lowered(word)) {
        let i = choose|i: int| 0 <= i < m.len() && m[i] == ascii_lowered(word);
        assert(ascii_lowered(trimmed(pieces(list, ',')[i])) == ascii_lowered(word));
    }
}

/// The weights of the cautious route and of the one with a wide berth are 4 and 12, and a search is
/// shown for 2 seconds.
pub proof fn weights_grow_with_the_berth()
    ensures
        crate::pathfind::AVOID_W_CAUTIOUS == 0x4080_0000,
        crate::pathfind::AVOID_W_WIDE == 0x4140_0000,
        float(crate::pathfind::AVOID_W_CAUTIOUS).lt(float(crate::pathfind::AVOID_W_WIDE)),
        crate::pathfind::TRACE_SECS == 0x4000_0000,
        crate::pathfind::DEBUG_ROUTE_FRAME == 20,
        Variant::Direct.name_text() == "Direct"@,
        Variant::Cautious.name_text() == "Cautious"@,
        Variant::WideBerth.name_text() == "Wide berth"@,
{
}

} // verus!
