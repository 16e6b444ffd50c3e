//! What the planner weighs and where runs may end, said of the markers themselves.
use crate::f32bits::float;
use crate::planner::{
    active_exits, by_value, candidate, candidates, candidates_are_sorted, foremost, placed,
    spawn_points, CandView, LockKeys, LootMarker, MapMark, PlanInput, PlanJob, PlanRequest, Verdict,
};
use crate::poi::layer::PoiLayer;
use crate::progress::{key_form, owned};
use vstd::prelude::*;

verus! {

/// Whether the player holds none of the keys of a lock that has some.
pub open spec fn locked_out(l: LockKeys, owned_keys: Seq<Seq<char>>) -> bool {
    l.0@.len() > 0 && forall|i: int, j: int|
        0 <= i < l.0@.len() && 0 <= j < owned_keys.len() ==> key_form(#[trigger] owned_keys[j]) != key_form(
            (#[trigger] l.0@[i])@,
        )
}

/// Whether a lock within fourteen metres keeps the player from a marker.
pub open spec fn shut_off(m: LootMarker, locks: Seq<LockKeys>, owned_keys: Seq<Seq<char>>) -> bool {
    exists|k: int|
        0 <= k < locks.len() && k < m.lock_dist@.len() && m.lock_dist@[k].le(float(0x4160_0000)) && locked_out(
            #[trigger] locks[k],
            owned_keys,
        )
}

/// Whether a marker is worth a stop: it is a container or loose loot, worth at least the request's
/// minimum, and not shut off.
pub open spec fn worth_a_stop(
    m: LootMarker,
    min_value: int,
    locks: Seq<LockKeys>,
    owned_keys: Seq<Seq<char>>,
) -> bool {
    &&& m.layer == Some(PoiLayer::LooseLoot) || m.container
    &&& m.value >= min_value
    &&& !shut_off(m, locks, owned_keys)
}

/// A marker as a stop: its own name, value and place; five seconds where it is not known how long
/// searching it takes.
pub open spec fn as_stop(m: LootMarker) -> CandView {
    CandView {
        name: m.name@,
        value: m.value,
        pos: m.pos,
        loot_s: if m.loot_s is Some {
            m.loot_s->0
        } else {
            float(0x40a0_0000)
        },
        jackpot: m.jackpot,
    }
}

proof fn the_same_worth(m: LootMarker, min_value: i64, locks: Seq<LockKeys>, owned_keys: Seq<Seq<char>>)
    ensures
        crate::planner::worth_weighing(m, min_value, locks, owned_keys) <==> worth_a_stop(
            m,
            min_value as int,
            locks,
            owned_keys,
        ),
{
    assert forall|k: int| 0 <= k < locks.len() implies (crate::planner::shut(#[trigger] locks[k], owned_keys)
        <==> locked_out(locks[k], owned_keys)) by {
        let l = locks[k];
        if crate::planner::shut(l, owned_keys) {
            assert forall|i: int, j: int| 0 <= i < l.0@.len() && 0 <= j < owned_keys.len() implies key_form(
                #[trigger] owned_keys[j],
            ) != key_form((#[trigger] l.0@[i])@) by {
                assert(!owned(owned_keys, l.0@[i]@));
            }
        }
        if locked_out(l, owned_keys) {
            assert forall|i: int| 0 <= i < l.0@.len() implies !owned(owned_keys, (#[trigger] l.0@[i])@) by {
                if owned(owned_keys, l.0@[i]@) {
                    let j = choose|j: int|
                        0 <= j < owned_keys.len() && key_form(#[trigger] owned_keys[j]) == key_form(l.0@[i]@);
                    assert(key_form(owned_keys[j]) != key_form(l.0@[i]@));
                }
            }
        }
    }
    if shut_off(m, locks, owned_keys) {
        let k = choose|k: int|
            0 <= k < locks.len() && k < m.lock_dist@.len() && m.lock_dist@[k].le(float(0x4160_0000))
                && locked_out(#[trigger] locks[k], owned_keys);
        assert(crate::planner::shut(locks[k], owned_keys));
        assert(crate::planner::behind_lock(m.lock_dist@, locks, owned_keys));
    }
    if crate::planner::behind_lock(m.lock_dist@, locks, owned_keys) {
        let k = choose|k: int|
            0 <= k < m.lock_dist@.len() && k < locks.len() && m.lock_dist@[k].le(float(0x4160_0000))
                && crate::planner::shut(#[trigger] locks[k], owned_keys);
        assert(locked_out(locks[k], owned_keys));
    }
}

/// The candidates are the markers that are worth a stop, loose loot and containers alike: each of
/// them, in their order, and nothing else.
pub proof fn all_worthy_markers_are_candidates(
    loot: Seq<LootMarker>,
    min_value: i64,
    locks: Seq<LockKeys>,
    owned_keys: Seq<Seq<char>>,
    n: nat,
)
    requires
        n <= loot.len(),
    ensures
        candidates(loot, min_value, locks, owned_keys, n) == loot.take(n as int).filter(
            |m: LootMarker| worth_a_stop(m, min_value as int, locks, owned_keys),
        ).map_values(|m: LootMarker| as_stop(m)),
    decreases n,
{
    reveal(Seq::filter);
    let pred = |m: LootMarker| worth_a_stop(m, min_value as int, locks, owned_keys);
    if n > 0 {
        all_worthy_markers_are_candidates(loot, min_value, locks, owned_keys, (n - 1) as nat);
        assert(loot.take(n as int).drop_last() =~= loot.take(n - 1));
        the_same_worth(loot[n - 1], min_value, locks, owned_keys);
        let before = loot.take(n - 1).filter(pred);
        assert(candidate(loot[n - 1]) == as_stop(loot[n - 1]));
        assert(loot.take(n as int).filter(pred).map_values(|m: LootMarker| as_stop(m)) =~= candidates(
            loot,
            min_value,
            locks,
            owned_keys,
            n,
        ));
    } else {
        assert(loot.take(0) =~= Seq::empty());
        assert(candidates(loot, min_value, locks, owned_keys, 0) =~= loot.take(0).filter(pred).map_values(
            |m: LootMarker| as_stop(m),
        ));
    }
}

/// A marker that is worth a stop is among the candidates before they are cut, wherever it stands among
/// them; where there are at most 120 it is weighed.
pub proof fn a_worthy_marker_is_weighed(
    loot: Seq<LootMarker>,
    min_value: i64,
    locks: Seq<LockKeys>,
    owned_keys: Seq<Seq<char>>,
    i: int,
)
    requires
        0 <= i < loot.len(),
        worth_a_stop(loot[i], min_value as int, locks, owned_keys),
    ensures
        candidates(loot, min_value, locks, owned_keys, loot.len()).contains(as_stop(loot[i])),
        by_value(candidates(loot, min_value, locks, owned_keys, loot.len())).contains(as_stop(loot[i])),
        candidates(loot, min_value, locks, owned_keys, loot.len()).len() <= 120 ==> foremost(
            by_value(candidates(loot, min_value, locks, owned_keys, loot.len())),
        ).contains(as_stop(loot[i])),
{
    let n = loot.len();
    let c = candidates(loot, min_value, locks, owned_keys, n);
    let pred = |m: LootMarker| worth_a_stop(m, min_value as int, locks, owned_keys);
    all_worthy_markers_are_candidates(loot, min_value, locks, owned_keys, n);
    assert(loot.take(n as int) =~= loot);
    loot.lemma_filter_contains(pred, i);
    let f = loot.filter(pred);
    let j = choose|j: int| 0 <= j < f.len() && f[j] == loot[i];
    assert(c[j] == as_stop(loot[i]));
    candidates_are_sorted(c);
    let s = by_value(c);
    broadcast use vstd::seq_lib::group_to_multiset_ensures;

    assert(c.to_multiset().count(as_stop(loot[i])) > 0);
    assert(s.to_multiset().count(as_stop(loot[i])) > 0);
    assert(s.contains(as_stop(loot[i])));
    assert(s.len() == c.len()) by {
        assert(s.to_multiset().len() == s.len());
        assert(c.to_multiset().len() == c.len());
    }
}

/// Candidates of one value are weighed in the order of their markers.
pub proof fn equal_values_keep_their_order(v: Seq<CandView>, x: int)
    ensures
        by_value(v).filter(|c: CandView| c.value == x) == v.filter(|c: CandView| c.value == x),
    decreases v.len(),
{
    let pred = |c: CandView| c.value == x;
    reveal(Seq::filter);
    if v.len() > 0 {
        equal_values_keep_their_order(v.drop_first(), x);
        candidates_are_sorted(v.drop_first());
        placing_puts_first(v[0], by_value(v.drop_first()), x);
        filter_of_joined(seq![v[0]], v.drop_first(), pred);
        assert(seq![v[0]] + v.drop_first() =~= v);
        assert(by_value(v).filter(pred) =~= v.filter(pred));
    }
}

proof fn filter_of_joined(a: Seq<CandView>, b: Seq<CandView>, pred: spec_fn(CandView) -> bool)
    ensures
        (a + b).filter(pred) == a.filter(pred) + b.filter(pred),
    decreases b.len(),
{
    reveal(Seq::filter);
    if b.len() == 0 {
        assert(a + b =~= a);
        assert(a.filter(pred) + b.filter(pred) =~= a.filter(pred));
    } else {
        filter_of_joined(a, b.drop_last(), pred);
        assert((a + b).drop_last() =~= a + b.drop_last());
        assert((a + b).filter(pred) =~= a.filter(pred) + b.filter(pred));
    }
}

proof fn filter_of_one(a: CandView, pred: spec_fn(CandView) -> bool)
    ensures
        !pred(a) ==> seq![a].filter(pred) == Seq::<CandView>::empty(),
{
    reveal(Seq::filter);
    let s = seq![a];
    assert(s.last() == a);
    assert(s.drop_last() =~= Seq::empty());
    assert(s.drop_last().filter(pred).len() == 0);
    assert(!pred(a) ==> s.filter(pred) == s.drop_last().filter(pred));
    assert(!pred(a) ==> s.filter(pred) =~= Seq::empty());
}

proof fn placing_puts_first(u: CandView, v: Seq<CandView>, x: int)
    requires
        crate::planner::falling(v),
    ensures
        placed(u, v).filter(|c: CandView| c.value == x) == seq![u].filter(|c: CandView| c.value == x) + v.filter(
            |c: CandView| c.value == x,
        ),
    decreases v.len(),
{
    let pred = |c: CandView| c.value == x;
    reveal(Seq::filter);
    if v.len() == 0 {
        assert(seq![u].filter(pred) + v.filter(pred) =~= seq![u].filter(pred));
    } else if v[0].value <= u.value {
        filter_of_joined(seq![u], v, pred);
    } else {
        let rest = v.drop_first();
        assert(crate::planner::falling(rest)) by {
            assert forall|i: int, j: int| 0 <= i < j < rest.len() implies (#[trigger] rest[i]).value >= (
            #[trigger] rest[j]).value by {
                assert(rest[i] == v[i + 1] && rest[j] == v[j + 1]);
            }
        }
        placing_puts_first(u, rest, x);
        filter_of_joined(seq![v[0]], placed(u, rest), pred);
        filter_of_joined(seq![v[0]], rest, pred);
        assert(seq![v[0]] + rest =~= v);
        let (one, two) = (seq![v[0]].filter(pred), seq![u].filter(pred));
        if u.value == x {
            assert(one =~= Seq::empty()) by {
                filter_of_one(v[0], pred);
            }
            assert(one + (two + rest.filter(pred)) =~= two + (one + rest.filter(pred)));
        } else {
            assert(two =~= Seq::empty()) by {
                filter_of_one(u, pred);
            }
            assert(one + (two + rest.filter(pred)) =~= two + (one + rest.filter(pred)));
        }
    }
}

/// A run may end at every extract that is not inactive, under its own name and at its own place, and
/// nowhere else.
pub proof fn runs_end_at_active_extracts(v: Seq<MapMark>, n: nat)
    requires
        n <= v.len(),
    ensures
        active_exits(v, n) == v.take(n as int).filter(
            |m: MapMark| !m.inactive && m.layer == PoiLayer::Extract,
        ).map_values(|m: MapMark| (m.name@, m.pos)),
    decreases n,
{
    reveal(Seq::filter);
    let pred = |m: MapMark| !m.inactive && m.layer == PoiLayer::Extract;
    if n > 0 {
        runs_end_at_active_extracts(v, (n - 1) as nat);
        assert(v.take(n as int).drop_last() =~= v.take(n - 1));
    } else {
        assert(v.take(0) =~= Seq::empty());
    }
    assert(active_exits(v, n) =~= v.take(n as int).filter(pred).map_values(|m: MapMark| (m.name@, m.pos)));
}

/// A request is refused only for want of a grid, of loot or of an extract, in this order; one for no
/// stops clears the plan.
pub proof fn requests_are_refused_for_a_reason(input: PlanInput, req: PlanRequest, owned_keys: Seq<Seq<char>>)
    ensures
        input.verdict(req, owned_keys) is Clear <==> req.max_stops == 0,
        input.verdict(req, owned_keys) is Search <==> req.max_stops > 0 && input.grid && (exists|i: int|
            0 <= i < input.loot@.len() && worth_a_stop(
                #[trigger] input.loot@[i],
                req.min_value as int,
                input.locks@,
                owned_keys,
            )) && (exists|i: int|
            0 <= i < input.marks@.len() && !(#[trigger] input.marks@[i]).inactive && input.marks@[i].layer
                == PoiLayer::Extract),
        req.max_stops > 0 && !input.grid ==> input.verdict(req, owned_keys) == Verdict::Refuse(
            "no route data for this map"@,
        ),
{
    let c = candidates(input.loot@, req.min_value, input.locks@, owned_keys, input.loot@.len());
    all_worthy_markers_are_candidates(
        input.loot@,
        req.min_value,
        input.locks@,
        owned_keys,
        input.loot@.len(),
    );
    runs_end_at_active_extracts(input.marks@, input.marks@.len());
    let worthy = |m: LootMarker| worth_a_stop(m, req.min_value as int, input.locks@, owned_keys);
    let exit = |m: MapMark| !m.inactive && m.layer == PoiLayer::Extract;
    assert(input.loot@.take(input.loot@.len() as int) =~= input.loot@);
    assert(input.marks@.take(input.marks@.len() as int) =~= input.marks@);
    some_pass(input.loot@, worthy);
    some_pass(input.marks@, exit);
    candidates_are_sorted(c);
    broadcast use vstd::seq_lib::group_to_multiset_ensures;

    assert(by_value(c).len() == c.len()) by {
        assert(by_value(c).to_multiset().len() == c.to_multiset().len());
    }
    if exists|i: int|
        0 <= i < input.loot@.len() && worth_a_stop(
            #[trigger] input.loot@[i],
            req.min_value as int,
            input.locks@,
            owned_keys,
        ) {
        let i = choose|i: int|
            0 <= i < input.loot@.len() && worth_a_stop(
                #[trigger] input.loot@[i],
                req.min_value as int,
                input.locks@,
                owned_keys,
            );
        assert(worthy(input.loot@[i]));
    }
    if exists|i: int|
        0 <= i < input.marks@.len() && !(#[trigger] input.marks@[i]).inactive && input.marks@[i].layer
            == PoiLayer::Extract {
        let i = choose|i: int|
            0 <= i < input.marks@.len() && !(#[trigger] input.marks@[i]).inactive && input.marks@[i].layer
                == PoiLayer::Extract;
        assert(exit(input.marks@[i]));
    }
}

proof fn some_pass<A>(s: Seq<A>, pred: spec_fn(A) -> bool)
    ensures
        s.filter(pred).len() > 0 <==> exists|i: int| 0 <= i < s.len() && pred(#[trigger] s[i]),
    decreases s.len(),
{
    reveal(Seq::filter);
    if s.len() > 0 {
        some_pass(s.drop_last(), pred);
        if pred(s.last()) {
            assert(pred(s[s.len() - 1]));
        }
        if exists|i: int| 0 <= i < s.drop_last().len() && pred(#[trigger] s.drop_last()[i]) {
            let i = choose|i: int| 0 <= i < s.drop_last().len() && pred(#[trigger] s.drop_last()[i]);
            assert(pred(s[i]));
        }
        if exists|i: int| 0 <= i < s.len() && pred(#[trigger] s[i]) {
            let i = choose|i: int| 0 <= i < s.len() && pred(#[trigger] s[i]);
            if i < s.len() - 1 {
                assert(pred(s.drop_last()[i]));
            }
        }
    }
}

/// A search starts at the pin, else at the camera, else at the origin; it is for the stops and the
/// time that were asked for, but never for less than 300 seconds.
pub proof fn searches_are_as_requested(input: PlanInput, j: PlanJob, req: PlanRequest, owned_keys: Seq<Seq<char>>)
    requires
        input.job_for(j, req, owned_keys),
    ensures
        input.pin matches Some(p) ==> j.start == p,
        input.pin is None && input.camera is Some ==> j.start == input.camera->0,
        j.max_stops == req.max_stops,
        float(0x4396_0000).lt(req.budget_s) ==> j.budget == req.budget_s,
        !float(0x4396_0000).lt(req.budget_s) ==> j.budget.rank() == float(0x4396_0000).rank(),
        j.cands@.len() <= 120,
{
    assert(crate::planner::cand_views(j.cands@).len() == j.cands@.len());
}

/// Where players appear is where the markers stand.
pub proof fn players_appear_at_the_markers(v: Seq<MapMark>, i: int)
    requires
        0 <= i < v.len(),
    ensures
        spawn_points(v).len() == v.len(),
        spawn_points(v)[i].layer == v[i].layer,
        spawn_points(v)[i].pos == v[i].pos,
{
}

} // verus!
