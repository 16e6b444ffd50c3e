//! What the search for a loot run chooses, keeps and gives up.
use crate::f32bits::F32;
use crate::loot_run::{
    best_offer, fitting, flagged, least_at, least_is_least, offers_of, slots_for, stop_at, turned,
    value_sum, Offer, Threaded, Untangle, Weighed,
};
use crate::loot_search::{SearchView, StageView};
use crate::planner::CandView;
use vstd::prelude::*;

verus! {

/// The numbers below `n`, in ascending order.
pub open spec fn numbers_below(n: nat) -> Seq<int> {
    Seq::new(n, |i: int| i)
}

/// What is kept of a list is what is flagged, in its order.
pub proof fn flagged_entries_are_kept<T>(v: Seq<T>, flags: Seq<bool>, n: nat)
    requires
        n <= v.len(),
        n <= flags.len(),
    ensures
        flagged(v, flags, n) == numbers_below(n).filter(|i: int| flags[i]).map_values(|i: int| v[i]),
    decreases n,
{
    reveal(Seq::filter);
    let pred = |i: int| flags[i];
    let at = |i: int| v[i];
    if n > 0 {
        flagged_entries_are_kept(v, flags, (n - 1) as nat);
        let before = numbers_below((n - 1) as nat);
        assert(numbers_below(n).drop_last() =~= before);
        assert(numbers_below(n).last() == n - 1);
        if flags[n - 1] {
            assert(numbers_below(n).filter(pred) =~= before.filter(pred).push(n - 1));
            assert(before.filter(pred).push(n - 1).map_values(at) =~= before.filter(pred).map_values(at).push(v[n - 1]));
        }
    } else {
        assert(numbers_below(n) =~= Seq::empty());
    }
    assert(flagged(v, flags, n) =~= numbers_below(n).filter(pred).map_values(at));
}

/// How many of the first `n` candidates are not taken.
pub open spec fn open_below(used: Seq<bool>, n: nat) -> nat
    decreases n,
{
    if n == 0 {
        0
    } else {
        open_below(used, (n - 1) as nat) + if used[n - 1] {
            0nat
        } else {
            1nat
        }
    }
}

/// Every candidate that is not taken is offered at every place of the tour, and at its end; nothing
/// else is offered. Offers stand in the order of their candidates, and then of their places.
pub proof fn open_candidates_are_offered_everywhere(used: Seq<bool>, k: nat, n: nat)
    requires
        n <= used.len() <= usize::MAX,
        k < usize::MAX,
    ensures
        forall|o: Offer| #[trigger]
            offers_of(used, k, n).contains(o) <==> (o.cand < n && !used[o.cand as int] && o.slot <= k),
        forall|i: int, j: int|
            0 <= i < j < offers_of(used, k, n).len() ==> (#[trigger] offers_of(used, k, n)[i]).cand < (
            #[trigger] offers_of(used, k, n)[j]).cand || offers_of(used, k, n)[i].cand == offers_of(
                used,
                k,
                n,
            )[j].cand && offers_of(used, k, n)[i].slot < offers_of(used, k, n)[j].slot,
        offers_of(used, k, n).len() == (k + 1) * open_below(used, n),
    decreases n,
{
    if n == 0 {
        assert((k + 1) * 0 == 0) by (nonlinear_arith);
    } else {
        let m = (n - 1) as nat;
        open_candidates_are_offered_everywhere(used, k, m);
        let rest = offers_of(used, k, m);
        let all = offers_of(used, k, n);
        if !used[n - 1] {
            let own = slots_for((n - 1) as usize, k);
            assert(all == rest + own);
            assert forall|o: Offer| #[trigger]
                all.contains(o) <==> (o.cand < n && !used[o.cand as int] && o.slot <= k) by {
                if all.contains(o) {
                    let i = choose|i: int| 0 <= i < all.len() && all[i] == o;
                    if i < rest.len() {
                        assert(rest[i] == o);
                        assert(rest.contains(o));
                    } else {
                        assert(own[i - rest.len()] == o);
                    }
                }
                if o.cand < n && !used[o.cand as int] && o.slot <= k {
                    if o.cand == n - 1 {
                        assert(own[o.slot as int] == o);
                        assert(all[rest.len() + o.slot as int] == o);
                    } else {
                        assert(rest.contains(o));
                        let i = choose|i: int| 0 <= i < rest.len() && rest[i] == o;
                        assert(all[i] == o);
                    }
                }
            }
            assert forall|i: int, j: int| 0 <= i < j < all.len() implies (#[trigger] all[i]).cand < (
            #[trigger] all[j]).cand || all[i].cand == all[j].cand && all[i].slot < all[j].slot by {
                if i < rest.len() {
                    assert(all[i] == rest[i]);
                    assert(rest.contains(rest[i]));
                    if j < rest.len() {
                        assert(all[j] == rest[j]);
                    } else {
                        assert(all[j] == own[j - rest.len()]);
                    }
                } else {
                    assert(all[i] == own[i - rest.len()]);
                    assert(all[j] == own[j - rest.len()]);
                }
            }
            let c = open_below(used, m);
            assert((k + 1) * (c + 1) == (k + 1) * c + (k + 1)) by (nonlinear_arith);
        } else {
            assert(all == rest);
            assert forall|o: Offer| #[trigger]
                all.contains(o) <==> (o.cand < n && !used[o.cand as int] && o.slot <= k) by {
                assert(rest.contains(o) <==> (o.cand < m && !used[o.cand as int] && o.slot <= k));
            }
        }
    }
}

/// An offer has a score exactly where the run with it does not take longer than the budget, and then
/// its own.
pub proof fn offers_over_the_budget_have_no_score(v: Seq<Weighed>, budget: F32, i: int)
    requires
        0 <= i < v.len(),
    ensures
        fitting(v, budget).len() == v.len(),
        fitting(v, budget)[i] is None <==> budget.lt(v[i].total),
        fitting(v, budget)[i] is Some ==> fitting(v, budget)[i]->0 == v[i].score,
{
}

/// The offer that is taken is the first of those that fit and that none outscores, where all scores
/// are numbers.
pub proof fn the_first_of_the_best_offers_is_taken(scores: Seq<Option<F32>>, n: nat, k: int)
    requires
        n <= scores.len(),
        forall|j: int| 0 <= j < n && (#[trigger] scores[j]) is Some ==> !scores[j]->0.nan(),
    ensures
        best_offer(scores, n) == Some(k) <==> {
            &&& 0 <= k < n
            &&& scores[k] is Some
            &&& forall|j: int|
                0 <= j < n && (#[trigger] scores[j]) is Some ==> scores[j]->0.rank() <= scores[k]->0.rank()
            &&& forall|j: int|
                0 <= j < k && (#[trigger] scores[j]) is Some ==> scores[j]->0.rank() < scores[k]->0.rank()
        },
        best_offer(scores, n) is None <==> forall|j: int| 0 <= j < n ==> (#[trigger] scores[j]) is None,
    decreases n,
{
    if n > 0 {
        let m = (n - 1) as nat;
        the_first_of_the_best_offers_is_taken(scores, m, k);
        if let Some(b) = best_offer(scores, m) {
            the_first_of_the_best_offers_is_taken(scores, m, b);
        }
        assert(scores[m as int] == scores[n - 1]);
        if let Some(b) = best_offer(scores, n) {
            if best_offer(scores, m) is Some {
                let c = best_offer(scores, m)->0;
                assert(scores[c] is Some);
            }
            assert(scores[b] is Some);
        }
    }
}

/// Turning stops around leaves those before and behind as they are and reverses those between.
pub proof fn only_the_stops_between_are_turned(t: Seq<usize>, a: int, b: int)
    requires
        0 <= a <= b <= t.len(),
    ensures
        turned(t, a, b) == t.take(a) + t.subrange(a, b).reverse() + t.skip(b),
{
    assert(turned(t, a, b) =~= t.take(a) + t.subrange(a, b).reverse() + t.skip(b));
}

/// Whether one pair of places comes before another.
pub open spec fn pair_before(i: int, j: int, a: int, b: int) -> bool {
    i < a || i == a && j < b
}

/// A sweep looks at every pair of places, one after the other, none twice: the next pair is the first
/// of those that come after. A new sweep begins only where the last one has found something to turn,
/// and the search ends only behind the last pair of a sweep that has not.
pub proof fn sweeps_look_at_every_pair(u: Untangle, better: bool)
    requires
        u.valid(),
        !u.done,
        u.n < usize::MAX,
    ensures
        ({
            let v = u.after(better);
            let last = u.i == u.n - 1 && u.j == u.n;
            &&& v.n == u.n
            &&& v.done <==> last && !u.improved && !better
            &&& !last ==> {
                &&& 1 <= v.i < v.j <= u.n
                &&& pair_before(u.i as int, u.j as int, v.i as int, v.j as int)
                &&& forall|a: int, b: int|
                    1 <= a < b <= u.n && #[trigger] pair_before(u.i as int, u.j as int, a, b) ==> !pair_before(
                        a,
                        b,
                        v.i as int,
                        v.j as int,
                    )
                &&& v.improved == (u.improved || better)
            }
            &&& last && !v.done ==> v.i == 1 && v.j == 2 && !v.improved
        }),
{
}

/// The value of a run is that of its stops together.
pub proof fn values_are_added(cands: Seq<CandView>, tour: Seq<usize>, n: nat)
    requires
        n <= tour.len(),
    ensures
        value_sum(cands, tour, n) == tour.take(n as int).map_values(
            |t: usize| cands[t as int].value as int,
        ).fold_left(0int, |a: int, b: int| a + b),
    decreases n,
{
    let f = |t: usize| cands[t as int].value as int;
    let g = |a: int, b: int| a + b;
    let s = tour.take(n as int).map_values(f);
    if n > 0 {
        values_are_added(cands, tour, (n - 1) as nat);
        assert(s.drop_last() =~= tour.take(n - 1).map_values(f));
        assert(s.last() == cands[tour[n - 1] as int].value);
    } else {
        assert(s.len() == 0);
    }
}

/// A stop is the candidate at its place of the tour, with the length of the walk to it.
pub proof fn stops_are_their_candidates(cands: Seq<CandView>, tour: Seq<usize>, legs: Seq<F32>, i: int)
    requires
        0 <= i < tour.len(),
    ensures
        ({
            let s = stop_at(cands, tour, legs, i);
            let c = cands[tour[i] as int];
            &&& s.name == c.name
            &&& s.value == c.value
            &&& s.pos == c.pos
            &&& s.loot_s == c.loot_s
            &&& s.leg == legs[i]
        }),
{
}

/// A walk is asked for exactly where a stop is left and fewer than six were asked for; the stops stay
/// as they are.
pub proof fn six_walks_are_asked_for_at_most(s: SearchView)
    requires
        0 <= s.tries <= 6,
    ensures
        s.to_walk().stage is Walk <==> s.tries < 6 && s.tour.len() > 0,
        s.to_walk().stage is Walk || s.to_walk().stage is Failed,
        s.to_walk().tries <= 6,
        s.to_walk().tour == s.tour && s.to_walk().used == s.used,
        s.to_walk().repairs == s.repairs,
{
}

/// Another stop is asked for exactly where there may be more; else pairs are compared, where there
/// are two stops at least.
pub proof fn stops_are_asked_for_up_to_the_limit(s: SearchView)
    requires
        0 <= s.tries < 6,
    ensures
        s.to_weigh().stage is Weigh <==> s.tour.len() < s.max_stops,
        s.to_weigh().tour == s.tour && s.to_weigh().used == s.used,
        s.to_compare().tour == s.tour && s.to_compare().used == s.used,
        s.to_compare().stage is Compare <==> s.tour.len() >= 2,
        s.to_compare().stage is Failed <==> s.tour.len() == 0,
        s.to_compare().stage is Walk <==> s.tour.len() == 1,
{
}

/// Weighing takes one stop more, or none. It takes none exactly where nothing fits the budget. The one
/// that it takes was not taken before, is put in at one place, and no offer that fits scores more,
/// where all scores are numbers.
pub proof fn weighing_takes_the_best_that_fits(s: SearchView, v: Seq<Weighed>, budget: F32)
    requires
        s.used.len() <= usize::MAX,
        s.tour.len() < usize::MAX,
        v.len() == offers_of(s.used, s.tour.len(), s.used.len()).len(),
        forall|j: int| 0 <= j < v.len() ==> !(#[trigger] v[j]).score.nan(),
    ensures
        (forall|j: int| 0 <= j < v.len() ==> budget.lt((#[trigger] v[j]).total)) ==> s.weighed(v, budget).tour
            == s.tour && s.weighed(v, budget).used == s.used && !(s.weighed(v, budget).stage is Weigh),
        (exists|j: int| 0 <= j < v.len() && !budget.lt((#[trigger] v[j]).total)) ==> exists|k: int| {
            &&& 0 <= k < v.len()
            &&& !budget.lt((#[trigger] v[k]).total)
            &&& forall|j: int|
                0 <= j < v.len() && !budget.lt((#[trigger] v[j]).total) ==> v[j].score.rank() <= v[k].score.rank()
            &&& ({
                let o = offers_of(s.used, s.tour.len(), s.used.len())[k];
                &&& o.cand < s.used.len() && !s.used[o.cand as int] && o.slot <= s.tour.len()
                &&& s.weighed(v, budget).tour == s.tour.take(o.slot as int) + seq![o.cand] + s.tour.skip(
                    o.slot as int,
                )
                &&& s.weighed(v, budget).used == s.used.update(o.cand as int, true)
            })
        },
{
    let scores = fitting(v, budget);
    let n = v.len();
    let offers = offers_of(s.used, s.tour.len(), s.used.len());
    open_candidates_are_offered_everywhere(s.used, s.tour.len(), s.used.len());
    assert forall|j: int| 0 <= j < n && (#[trigger] scores[j]) is Some implies !scores[j]->0.nan() by {
        assert(v[j].score == scores[j]->0);
    }
    match best_offer(scores, n) {
        None => {
            the_first_of_the_best_offers_is_taken(scores, n, 0);
            assert forall|j: int| 0 <= j < n implies budget.lt((#[trigger] v[j]).total) by {
                assert(scores[j] is None);
            }
        },
        Some(k) => {
            the_first_of_the_best_offers_is_taken(scores, n, k);
            assert(scores[k] is Some);
            assert(!budget.lt(v[k].total));
            assert forall|j: int| 0 <= j < n && !budget.lt((#[trigger] v[j]).total) implies v[j].score.rank()
                <= v[k].score.rank() by {
                assert(scores[j] is Some);
            }
            let o = offers[k];
            assert(offers.contains(o));
            assert(s.tour.insert(o.slot as int, o.cand) =~= s.tour.take(o.slot as int) + seq![o.cand] + s.tour.skip(
                o.slot as int,
            ));
        },
    }
}

/// A run whose stop cannot be reached loses that stop and no other.
pub proof fn a_blocked_stop_is_given_up(s: SearchView, k: usize)
    requires
        k < s.tour.len(),
    ensures
        s.walked(Threaded::Blocked(k)).tour == s.tour.take(k as int) + s.tour.skip(k + 1),
        s.walked(Threaded::Blocked(k)).repairs == s.repairs,
        s.walked(Threaded::NoExit).stage is Failed,
        s.walked(Threaded::NoExit).tour == s.tour,
{
    assert(s.tour.remove(k as int) =~= s.tour.take(k as int) + s.tour.skip(k + 1));
}

/// A run that takes too long loses the stop that brings least for its time, three times at most; a
/// single stop is kept.
pub proof fn the_stop_that_brings_least_is_given_up(s: SearchView, time: F32, limit: F32, rates: Vec<F32>)
    requires
        rates@.len() == s.tour.len(),
        s.tour.len() > 0,
        0 <= s.repairs <= 3,
    ensures
        ({
            let w = s.walked(Threaded::Walked { time, limit, rates });
            &&& !limit.lt(time) || s.tour.len() == 1 ==> w.stage is Ready && w.tour == s.tour
            &&& limit.lt(time) && s.tour.len() > 1 && s.repairs == 3 ==> w.stage is Failed && w.tour == s.tour
            &&& limit.lt(time) && s.tour.len() > 1 && s.repairs < 3 ==> w.repairs == s.repairs + 1
                && exists|k: int| {
                &&& 0 <= k < s.tour.len()
                &&& forall|j: int|
                    0 <= j < rates@.len() ==> rates@[k].total_rank() <= (#[trigger] rates@[j]).total_rank()
                &&& w.tour == s.tour.take(k) + #[trigger] s.tour.skip(k + 1)
            }
        }),
{
    let w = s.walked(Threaded::Walked { time, limit, rates });
    if limit.lt(time) && s.tour.len() > 1 && s.repairs < 3 {
        least_is_least(rates@, rates@.len());
        let k = least_at(rates@, rates@.len());
        assert(s.tour.remove(k) =~= s.tour.take(k) + s.tour.skip(k + 1));
    }
}

/// Comparing a pair turns the stops from the first to the second around exactly where that is
/// shorter.
pub proof fn pairs_are_turned_where_that_is_shorter(s: SearchView, u: Untangle, turned_way: F32, as_is: F32)
    requires
        s.stage == StageView::Compare(u),
        u.valid(),
        !u.done,
        u.n == s.tour.len(),
    ensures
        turned_way.lt(as_is) ==> s.compared(turned_way, as_is).tour == s.tour.take(u.i - 1) + s.tour.subrange(
            u.i - 1,
            u.j as int,
        ).reverse() + s.tour.skip(u.j as int),
        !turned_way.lt(as_is) ==> s.compared(turned_way, as_is).tour == s.tour,
        s.compared(turned_way, as_is).used == s.used,
{
    only_the_stops_between_are_turned(s.tour, u.i - 1, u.j as int);
}

} // verus!
