//! How a loot run is put together: which stop is inserted next, which crossing is undone, which stop
//! is given up, and what the finished run looks like.
use vstd::prelude::*;
use crate::compose::{join2, maybe_text};
use crate::f32bits::F32;
use crate::gpu::materials::V3;
use crate::pathfind::{
    option_views, OptionView, RouteOption, RouteResult, RouteStatus, RouteView, StatusView,
};
use crate::planner::{
    cand_view, cand_views, exit_views, stop_views, Cand, CandView, Exit, PlanJob, PlanResult, PlanStatus, PlanStop,
    PlanView, StopView,
};

verus! {

/// A run in the making.
#[derive(Debug)]
pub struct Run {
    pub cands: Vec<Cand>,
    pub extracts: Vec<Exit>,
    pub max_stops: usize,
    /// Which candidates have been taken into the tour.
    pub used: Vec<bool>,
    /// The candidates to visit, in their order.
    pub tour: Vec<usize>,
}

/// Whether no entry occurs twice.
pub open spec fn distinct(t: Seq<usize>) -> bool {
    forall|i: int, j: int| 0 <= i < j < t.len() ==> #[trigger] t[i] != #[trigger] t[j]
}

impl Run {
    /// The tour visits candidates, none twice.
    pub open spec fn valid(self) -> bool {
        &&& self.extracts@.len() > 0
        &&& distinct(self.tour@)
        &&& forall|i: int| 0 <= i < self.tour@.len() ==> (#[trigger] self.tour@[i]) < self.cands@.len()
    }

    /// While stops are being inserted, those taken are those in the tour, and there are not too many.
    pub open spec fn inserting(self) -> bool {
        &&& self.valid()
        &&& self.used@.len() == self.cands@.len()
        &&& forall|c: int| 0 <= c < self.cands@.len() ==> (#[trigger] self.used@[c] <==> self.tour@.contains(c as usize))
        &&& self.tour@.len() <= self.max_stops
    }
}

/// The entries among the first `n` that are flagged.
pub open spec fn flagged<T>(v: Seq<T>, flags: Seq<bool>, n: nat) -> Seq<T>
    decreases n,
{
    if n == 0 {
        seq![]
    } else if flags[n - 1] {
        flagged(v, flags, (n - 1) as nat).push(v[n - 1])
    } else {
        flagged(v, flags, (n - 1) as nat)
    }
}

fn keep_cands(v: &Vec<Cand>, flags: &Vec<bool>) -> (r: Vec<Cand>)
    requires
        flags@.len() == v@.len(),
    ensures
        cand_views(r@) == flagged(cand_views(v@), flags@, v@.len()),
{
    let mut r: Vec<Cand> = Vec::new();
    let n: usize = v.len();
    let mut i: usize = 0;
    proof {
        assert(cand_views(r@) =~= flagged(cand_views(v@), flags@, 0));
    }
    while i < n
        invariant
            i <= n,
            n == v@.len(),
            flags@.len() == n,
            cand_views(r@) == flagged(cand_views(v@), flags@, i as nat),
        decreases n - i,
    {
        if flags[i] {
            let c = &v[i];
            let ghost before = r@;
            let copy = Cand {
                name: c.name.as_str().to_owned(),
                value: c.value,
                pos: c.pos,
                loot_s: c.loot_s,
                jackpot: c.jackpot,
            };
            r.push(copy);
            proof {
                assert(cand_views(r@) =~= cand_views(before).push(cand_views(v@)[i as int]));
            }
        }
        i = i + 1;
    }
    r
}

fn keep_exits(v: &Vec<Exit>, flags: &Vec<bool>) -> (r: Vec<Exit>)
    requires
        flags@.len() == v@.len(),
    ensures
        exit_views(r@) == flagged(exit_views(v@), flags@, v@.len()),
{
    let mut r: Vec<Exit> = Vec::new();
    let n: usize = v.len();
    let mut i: usize = 0;
    proof {
        assert(exit_views(r@) =~= flagged(exit_views(v@), flags@, 0));
    }
    while i < n
        invariant
            i <= n,
            n == v@.len(),
            flags@.len() == n,
            exit_views(r@) == flagged(exit_views(v@), flags@, i as nat),
        decreases n - i,
    {
        if flags[i] {
            let e = &v[i];
            let ghost before = r@;
            r.push(Exit { name: e.name.as_str().to_owned(), pos: e.pos });
            proof {
                assert(exit_views(r@) =~= exit_views(before).push(exit_views(v@)[i as int]));
            }
        }
        i = i + 1;
    }
    r
}

/// Where the least of the first `n` values stands; the first of those that are equal.
pub open spec fn least_at(v: Seq<F32>, n: nat) -> int
    decreases n,
{
    if n <= 1 {
        0
    } else {
        let k = least_at(v, (n - 1) as nat);
        if v[n - 1].total_rank() < v[k].total_rank() {
            n - 1
        } else {
            k
        }
    }
}

/// Where the least value stands.
pub fn first_least(v: &Vec<F32>) -> (r: usize)
    requires
        v@.len() > 0,
    ensures
        r == least_at(v@, v@.len()),
        r < v@.len(),
{
    let n: usize = v.len();
    let mut best: usize = 0;
    let mut i: usize = 1;
    while i < n
        invariant
            1 <= i <= n,
            n == v@.len(),
            best == least_at(v@, i as nat),
            best < i,
        decreases n - i,
    {
        if v[i].total_rank_of() < v[best].total_rank_of() {
            best = i;
        }
        i = i + 1;
    }
    best
}

/// No value is below the least, and none before it is as low.
pub proof fn least_is_least(v: Seq<F32>, n: nat)
    requires
        0 < n <= v.len(),
    ensures
        0 <= least_at(v, n) < n,
        forall|j: int| 0 <= j < n ==> v[least_at(v, n)].total_rank() <= (#[trigger] v[j]).total_rank(),
        forall|j: int|
            0 <= j < least_at(v, n) ==> v[least_at(v, n)].total_rank() < (#[trigger] v[j]).total_rank(),
    decreases n,
{
    if n > 1 {
        least_is_least(v, (n - 1) as nat);
    }
}

/// A candidate that may be inserted, and where: before stop `slot`, or at the end.
#[derive(Clone, Copy, Debug, PartialEq, Eq, Structural)]
pub struct Offer {
    pub cand: usize,
    pub slot: usize,
}

/// The slots `0..=k` for a candidate.
pub open spec fn slots_for(c: usize, k: nat) -> Seq<Offer> {
    Seq::new(k + 1, |s: int| Offer { cand: c, slot: s as usize })
}

/// The offers of the first `n` candidates that are not taken.
pub open spec fn offers_of(used: Seq<bool>, k: nat, n: nat) -> Seq<Offer>
    decreases n,
{
    if n == 0 {
        seq![]
    } else if used[n - 1] {
        offers_of(used, k, (n - 1) as nat)
    } else {
        offers_of(used, k, (n - 1) as nat) + slots_for((n - 1) as usize, k)
    }
}

/// Which of the first `n` offers scores best; the first of those that are equal. An offer without a
/// score does not fit.
pub open spec fn best_offer(scores: Seq<Option<F32>>, n: nat) -> Option<int>
    decreases n,
{
    if n == 0 {
        None
    } else {
        let best = best_offer(scores, (n - 1) as nat);
        match scores[n - 1] {
            Some(s) => if best is None || scores[best->0]->0.lt(s) {
                Some(n - 1)
            } else {
                best
            },
            None => best,
        }
    }
}

/// What an offer comes to: how long the run would take with it, and what it brings for its time.
#[derive(Clone, Copy, Debug, PartialEq, Eq, Structural)]
pub struct Weighed {
    pub total: F32,
    pub score: F32,
}

/// The scores of offers; none for one with which the run would take longer than the budget.
pub open spec fn fitting(v: Seq<Weighed>, budget: F32) -> Seq<Option<F32>> {
    Seq::new(
        v.len(),
        |i: int|
            if budget.lt(v[i].total) {
                None
            } else {
                Some(v[i].score)
            },
    )
}

fn keep_fitting(v: &Vec<Weighed>, budget: F32) -> (r: Vec<Option<F32>>)
    ensures
        r@ == fitting(v@, budget),
{
    let mut r: Vec<Option<F32>> = Vec::new();
    let n: usize = v.len();
    let mut i: usize = 0;
    while i < n
        invariant
            i <= n,
            n == v@.len(),
            r@ == fitting(v@, budget).take(i as int),
        decreases n - i,
    {
        let ghost before = r@;
        if budget.less(v[i].total) {
            r.push(None);
        } else {
            r.push(Some(v[i].score));
        }
        proof {
            assert(fitting(v@, budget).take(i + 1) =~= before.push(fitting(v@, budget)[i as int]));
        }
        i = i + 1;
    }
    proof {
        assert(fitting(v@, budget).take(n as int) =~= fitting(v@, budget));
    }
    r
}

fn find_best(scores: &Vec<Option<F32>>) -> (r: Option<usize>)
    ensures
        match r {
            Some(k) => best_offer(scores@, scores@.len()) == Some(k as int) && k < scores@.len(),
            None => best_offer(scores@, scores@.len()) is None,
        },
{
    let n: usize = scores.len();
    let mut best: Option<usize> = None;
    let mut i: usize = 0;
    while i < n
        invariant
            i <= n,
            n == scores@.len(),
            match best {
                Some(k) => best_offer(scores@, i as nat) == Some(k as int) && k < i && scores@[k as int] is Some,
                None => best_offer(scores@, i as nat) is None,
            },
        decreases n - i,
    {
        if let Some(s) = scores[i] {
            let better = match best {
                Some(k) => match scores[k] {
                    Some(b) => b.less(s),
                    None => true,
                },
                None => true,
            };
            if better {
                best = Some(i);
            }
        }
        i = i + 1;
    }
    best
}

/// The best offer fits, and none that fits scores more, where all scores are numbers. There is one
/// exactly where some offer fits.
pub proof fn best_offer_is_best(scores: Seq<Option<F32>>, n: nat)
    requires
        n <= scores.len(),
        forall|j: int| 0 <= j < n && (#[trigger] scores[j]) is Some ==> !scores[j]->0.nan(),
    ensures
        best_offer(scores, n) is None ==> forall|j: int| 0 <= j < n ==> (#[trigger] scores[j]) is None,
        best_offer(scores, n) is Some ==> 0 <= best_offer(scores, n)->0 < n && scores[best_offer(scores, n)->0]
            is Some && forall|j: int|
            0 <= j < n && (#[trigger] scores[j]) is Some ==> scores[j]->0.le(
                scores[best_offer(scores, n)->0]->0,
            ),
    decreases n,
{
    if n > 0 {
        best_offer_is_best(scores, (n - 1) as nat);
    }
}

/// The texts of the ways in which a run can fail.
pub open spec fn off_mesh_text() -> Seq<char> {
    "start is off the walkable mesh"@
}

impl Run {
    /// Begin a run with what can be reached: the flags say which candidates and which extracts can
    /// be, and whether the start is on the grid at all.
    pub fn new(job: &PlanJob, start_ok: bool, cand_ok: &Vec<bool>, exit_ok: &Vec<bool>) -> (r: Result<Run, String>)
        requires
            cand_ok@.len() == job.cands@.len(),
            exit_ok@.len() == job.extracts@.len(),
        ensures
            ({
                let cands = flagged(cand_views(job.cands@), cand_ok@, job.cands@.len());
                let exits = flagged(exit_views(job.extracts@), exit_ok@, job.extracts@.len());
                match r {
                    Ok(run) => {
                        &&& start_ok && cands.len() > 0 && exits.len() > 0
                        &&& cand_views(run.cands@) == cands
                        &&& exit_views(run.extracts@) == exits
                        &&& run.max_stops == job.max_stops
                        &&& run.tour@.len() == 0
                        &&& run.inserting()
                    },
                    Err(e) => {
                        ||| !start_ok && e@ == off_mesh_text()
                        ||| start_ok && cands.len() == 0 && e@
                            == "no reachable loot above the value filter within the budget"@
                        ||| start_ok && cands.len() > 0 && exits.len() == 0 && e@
                            == "no reachable extract within the budget"@
                    },
                }
            }),
    {
        if !start_ok {
            return Err("start is off the walkable mesh".to_owned());
        }
        let cands = keep_cands(&job.cands, cand_ok);
        proof {
            assert(cand_views(cands@).len() == cands@.len());
        }
        if cands.len() == 0 {
            return Err("no reachable loot above the value filter within the budget".to_owned());
        }
        let extracts = keep_exits(&job.extracts, exit_ok);
        proof {
            assert(exit_views(extracts@).len() == extracts@.len());
        }
        if extracts.len() == 0 {
            return Err("no reachable extract within the budget".to_owned());
        }
        let mut used: Vec<bool> = Vec::new();
        let n: usize = cands.len();
        let mut i: usize = 0;
        while i < n
            invariant
                i <= n,
                used@.len() == i,
                forall|k: int| 0 <= k < i ==> !#[trigger] used@[k],
            decreases n - i,
        {
            used.push(false);
            i = i + 1;
        }
        let tour: Vec<usize> = Vec::new();
        Ok(Run { cands, extracts, max_stops: job.max_stops, used, tour })
    }

    /// Whether another stop may be inserted.
    pub fn wants_more(&self) -> (r: bool)
        ensures
            r == (self.tour@.len() < self.max_stops),
    {
        self.tour.len() < self.max_stops
    }

    /// What may be inserted next, in the order in which it is weighed: each candidate that is not
    /// taken, at each place of the tour.
    pub fn offers(&self) -> (r: Vec<Offer>)
        requires
            self.inserting(),
        ensures
            r@ == offers_of(self.used@, self.tour@.len(), self.used@.len()),
    {
        let mut r: Vec<Offer> = Vec::new();
        let n: usize = self.used.len();
        let k: usize = self.tour.len();
        let mut c: usize = 0;
        while c < n
            invariant
                c <= n,
                n == self.used@.len(),
                k == self.tour@.len(),
                r@ == offers_of(self.used@, k as nat, c as nat),
            decreases n - c,
        {
            if !self.used[c] {
                let ghost before = r@;
                r.push(Offer { cand: c, slot: 0 });
                proof {
                    assert(r@ =~= before + slots_for(c, k as nat).take(1));
                }
                let mut s: usize = 0;
                while s < k
                    invariant
                        s <= k,
                        r@ == before + slots_for(c, k as nat).take(s + 1),
                    decreases k - s,
                {
                    s = s + 1;
                    r.push(Offer { cand: c, slot: s });
                    proof {
                        assert(r@ =~= before + slots_for(c, k as nat).take(s + 1));
                    }
                }
                proof {
                    assert(slots_for(c, k as nat).take(k + 1) =~= slots_for(c, k as nat));
                }
            }
            c = c + 1;
        }
        r
    }

    /// Insert the stop of the best offer that fits the budget, given what each offer comes to.
    /// Returns which offer was taken; none where nothing fits.
    pub fn insert_best(&mut self, offers: &Vec<Offer>, weighed: &Vec<Weighed>, budget: F32) -> (r: Option<usize>)
        requires
            old(self).inserting(),
            old(self).tour@.len() < old(self).max_stops,
            offers@ == offers_of(old(self).used@, old(self).tour@.len(), old(self).used@.len()),
            weighed@.len() == offers@.len(),
        ensures
            final(self).inserting(),
            final(self).cands == old(self).cands,
            final(self).extracts == old(self).extracts,
            final(self).max_stops == old(self).max_stops,
            match r {
                Some(k) => {
                    &&& best_offer(fitting(weighed@, budget), weighed@.len()) == Some(k as int)
                    &&& k < offers@.len()
                    &&& final(self).tour@ == old(self).tour@.insert(
                        offers@[k as int].slot as int,
                        offers@[k as int].cand,
                    )
                    &&& final(self).used@ == old(self).used@.update(offers@[k as int].cand as int, true)
                },
                None => best_offer(fitting(weighed@, budget), weighed@.len()) is None && *final(self)
                    == *old(self),
            },
    {
        let scores = keep_fitting(weighed, budget);
        match find_best(&scores) {
            Some(k) => {
                let o = offers[k];
                let ghost t = self.tour@;
                let ghost u = self.used@;
                let klen: usize = self.tour.len();
                let ncands: usize = self.cands.len();
                proof {
                    assert(u.len() == ncands);
                    offers_are_open(u, t.len(), u.len(), k as int, klen);
                }
                self.tour.insert(o.slot, o.cand);
                self.used.set(o.cand, true);
                proof {
                    inserted_is_distinct(t, o.slot as int, o.cand);
                    let new = self.tour@;
                    assert forall|c: int| 0 <= c < ncands implies (#[trigger] self.used@[c]
                        <==> new.contains(c as usize)) by {
                        insert_contains(t, o.slot as int, o.cand, c as usize);
                    }
                    assert forall|i: int| 0 <= i < new.len() implies (#[trigger] new[i])
                        < self.cands@.len() by {
                        if i < o.slot {
                            assert(new[i] == t[i]);
                        } else if i > o.slot {
                            assert(new[i] == t[i - 1]);
                        }
                    }
                }
                Some(k)
            },
            None => None,
        }
    }

    /// Whether the run has a stop at all. A run without any fails.
    pub fn check_inserted(&self) -> (r: Result<(), String>)
        ensures
            match r {
                Ok(_) => self.tour@.len() > 0,
                Err(e) => self.tour@.len() == 0 && e@
                    == "budget too small \u{2014} no loot fits before the extract"@,
            },
    {
        if self.tour.len() == 0 {
            Err("budget too small \u{2014} no loot fits before the extract".to_owned())
        } else {
            Ok(())
        }
    }
}

/// Every offer is of a candidate that is not taken, at a place of the tour.
pub(crate) proof fn offers_are_open(used: Seq<bool>, k: nat, n: nat, i: int, klen: usize)
    requires
        n <= used.len(),
        k == klen,
        0 <= i < offers_of(used, k, n).len(),
        n <= usize::MAX,
    ensures
        offers_of(used, k, n)[i].cand < n,
        !used[offers_of(used, k, n)[i].cand as int],
        offers_of(used, k, n)[i].slot <= k,
    decreases n,
{
    if n > 0 {
        let rest = offers_of(used, k, (n - 1) as nat);
        if i < rest.len() {
            offers_are_open(used, k, (n - 1) as nat, i, klen);
            if !used[n - 1] {
                assert(offers_of(used, k, n)[i] == rest[i]);
            }
        } else {
            assert(offers_of(used, k, n)[i] == slots_for((n - 1) as usize, k)[i - rest.len()]);
        }
    }
}

/// What a sequence holds once `x` was put in at `p`.
pub(crate) proof fn insert_contains(t: Seq<usize>, p: int, x: usize, y: usize)
    requires
        0 <= p <= t.len(),
    ensures
        t.insert(p, x).contains(y) == (t.contains(y) || y == x),
{
    let n = t.insert(p, x);
    if t.contains(y) {
        let i = choose|i: int| 0 <= i < t.len() && t[i] == y;
        if i < p {
            assert(n[i] == y);
        } else {
            assert(n[i + 1] == y);
        }
    }
    if y == x {
        assert(n[p] == y);
    }
    if n.contains(y) {
        let i = choose|i: int| 0 <= i < n.len() && n[i] == y;
        if i < p {
            assert(t[i] == y);
        } else if i > p {
            assert(t[i - 1] == y);
        }
    }
}

/// Putting in something new leaves no entry twice.
proof fn inserted_is_distinct(t: Seq<usize>, p: int, x: usize)
    requires
        distinct(t),
        !t.contains(x),
        0 <= p <= t.len(),
    ensures
        distinct(t.insert(p, x)),
{
    let n = t.insert(p, x);
    assert forall|i: int, j: int| 0 <= i < j < n.len() implies #[trigger] n[i] != #[trigger] n[j] by {
        if i == p {
            assert(n[j] == t[j - 1]);
        } else if j == p {
            assert(n[i] == t[i]);
        } else {
            let a = if i < p {
                i
            } else {
                i - 1
            };
            let b = if j < p {
                j
            } else {
                j - 1
            };
            assert(n[i] == t[a] && n[j] == t[b]);
        }
    }
}

/// A sequence with the entries from `a` up to `b` in the opposite order.
pub open spec fn turned(t: Seq<usize>, a: int, b: int) -> Seq<usize> {
    Seq::new(
        t.len(),
        |k: int|
            if a <= k < b {
                t[a + b - 1 - k]
            } else {
                t[k]
            },
    )
}

/// Turn the entries from `a` up to `b` around.
fn turn(t: &mut Vec<usize>, a: usize, b: usize)
    requires
        a <= b <= old(t)@.len(),
    ensures
        final(t)@ == turned(old(t)@, a as int, b as int),
{
    let ghost before = t@;
    let mut i: usize = a;
    let mut j: usize = b;
    while i < j && i + 1 < j
        invariant
            a <= i <= j <= b <= before.len(),
            t@.len() == before.len(),
            i - a == b - j,
            forall|k: int|
                0 <= k < before.len() ==> #[trigger] t@[k] == (if (a <= k < i) || (j <= k < b) {
                    before[a + b - 1 - k]
                } else {
                    before[k]
                }),
        decreases j - i,
    {
        let x: usize = t[i];
        let y: usize = t[j - 1];
        t.set(i, y);
        t.set(j - 1, x);
        i = i + 1;
        j = j - 1;
    }
    proof {
        assert(t@ =~= turned(before, a as int, b as int));
    }
}

/// The search for crossings: the pair of places that is looked at, and whether the sweep has found
/// one to undo.
#[derive(Clone, Copy, Debug, PartialEq, Eq, Structural)]
pub struct Untangle {
    /// The number of stops.
    pub n: usize,
    pub i: usize,
    pub j: usize,
    pub improved: bool,
    pub done: bool,
}

impl Untangle {
    /// While the search goes on, the pair is one of the tour's: `1 <= i < j <= n`.
    pub open spec fn valid(self) -> bool {
        self.done || 1 <= self.i < self.j <= self.n
    }

    /// The search after the pair was looked at: the next pair of the sweep; at its end a new sweep
    /// where it has found something, else the end.
    pub open spec fn after(self, better: bool) -> Untangle {
        let improved = self.improved || better;
        if self.j < self.n {
            Untangle { j: (self.j + 1) as usize, improved, ..self }
        } else if self.i + 1 < self.n {
            Untangle { i: (self.i + 1) as usize, j: (self.i + 2) as usize, improved, ..self }
        } else if improved {
            Untangle { i: 1, j: 2, improved: false, ..self }
        } else {
            Untangle { improved: false, done: true, ..self }
        }
    }

    /// Begin the search on a tour of `n` stops. Fewer than two have no pair.
    pub fn new(n: usize) -> (r: Untangle)
        ensures
            r == (Untangle { n, i: 1, j: 2, improved: false, done: n < 2 }),
            r.valid(),
    {
        Untangle { n, i: 1, j: 2, improved: false, done: n < 2 }
    }

    /// Look at the pair. `as_is` is how long the ways into `i` and out of `j` are, and `turned_way` how
    /// long they are, and a margin, once the stops from `i` to `j` are turned around. Where that is
    /// shorter they are turned; then the search moves on.
    pub fn answer(&mut self, tour: &mut Vec<usize>, turned_way: F32, as_is: F32)
        requires
            old(self).valid(),
            !old(self).done,
            old(self).n == old(tour)@.len(),
        ensures
            final(self).valid(),
            *final(self) == old(self).after(turned_way.lt(as_is)),
            final(tour)@ == (if turned_way.lt(as_is) {
                turned(old(tour)@, old(self).i - 1, old(self).j as int)
            } else {
                old(tour)@
            }),
    {
        let better = turned_way.less(as_is);
        assert(tour@.len() == tour.len());
        if better {
            turn(tour, self.i - 1, self.j);
            self.improved = true;
        }
        if self.j < self.n {
            self.j = self.j + 1;
        } else if self.i + 1 < self.n {
            self.i = self.i + 1;
            self.j = self.i + 1;
        } else if self.improved {
            self.i = 1;
            self.j = 2;
            self.improved = false;
        } else {
            self.done = true;
        }
    }
}

/// Turning stops around keeps the run valid: the same stops are visited, each once.
pub proof fn turning_keeps_stops(t: Seq<usize>, a: int, b: int)
    requires
        0 <= a <= b <= t.len(),
    ensures
        turned(t, a, b).len() == t.len(),
        distinct(t) ==> distinct(turned(t, a, b)),
        forall|c: usize| turned(t, a, b).contains(c) == t.contains(c),
        turned(turned(t, a, b), a, b) == t,
{
    let u = turned(t, a, b);
    assert(turned(u, a, b) =~= t);
    assert forall|c: usize| u.contains(c) == t.contains(c) by {
        if t.contains(c) {
            let i = choose|i: int| 0 <= i < t.len() && t[i] == c;
            if a <= i < b {
                assert(u[a + b - 1 - i] == c);
            } else {
                assert(u[i] == c);
            }
        }
        if u.contains(c) {
            let i = choose|i: int| 0 <= i < u.len() && u[i] == c;
            if a <= i < b {
                assert(t[a + b - 1 - i] == c);
            } else {
                assert(t[i] == c);
            }
        }
    }
    if distinct(t) {
        assert forall|i: int, j: int| 0 <= i < j < u.len() implies #[trigger] u[i] != #[trigger] u[j] by {
            let x = if a <= i < b {
                a + b - 1 - i
            } else {
                i
            };
            let y = if a <= j < b {
                a + b - 1 - j
            } else {
                j
            };
            assert(u[i] == t[x] && u[j] == t[y]);
            assert(x != y);
            if x < y {
                assert(t[x] != t[y]);
            } else {
                assert(t[y] != t[x]);
            }
        }
    }
}

/// The attempts at threading a run before it is given up.
pub const MAX_TRIES: u32 = 6;

/// How many stops are given up at most because a run takes too long.
pub const MAX_REPAIRS: u32 = 3;

/// The text of a run that does not fit.
pub open spec fn too_long_text() -> Seq<char> {
    "couldn't fit a run into the budget (try fewer stops / larger budget)"@
}

/// What threading a run through the grid came to.
#[derive(Debug)]
pub enum Threaded {
    /// Stop number so-and-so cannot be reached.
    Blocked(usize),
    /// No extract can be reached from the last stop.
    NoExit,
    /// The run can be walked: how long it takes, how long it may take, and what each stop brings for
    /// its time.
    Walked { time: F32, limit: F32, rates: Vec<F32> },
}

/// What follows from it.
#[derive(Debug)]
pub enum RepairStep {
    /// A stop was given up; the run is to be threaded again.
    Again,
    /// The run fails.
    Fail(String),
    /// The run stands.
    Accept,
}

impl Run {
    /// Begin another attempt. Returns the text of the failure where all attempts are used up, or
    /// where no stop is left.
    pub fn begin_try(&self, tries: &mut u32) -> (r: Option<String>)
        requires
            *old(tries) <= MAX_TRIES,
        ensures
            *final(tries) <= MAX_TRIES,
            *old(tries) == MAX_TRIES ==> *final(tries) == MAX_TRIES && maybe_text(r) == Some(
                too_long_text(),
            ),
            *old(tries) < MAX_TRIES ==> *final(tries) == *old(tries) + 1 && maybe_text(r) == (
            if self.tour@.len() == 0 {
                Some("no reachable loot within the budget"@)
            } else {
                None
            }),
    {
        if *tries == MAX_TRIES {
            return Some(
                "couldn't fit a run into the budget (try fewer stops / larger budget)".to_owned(),
            );
        }
        *tries = *tries + 1;
        if self.tour.len() == 0 {
            return Some("no reachable loot within the budget".to_owned());
        }
        None
    }

    /// What follows from threading the run: a stop that cannot be reached is given up, and so is,
    /// where the run takes too long and has more than one stop, the one that brings least for its
    /// time. The latter is done only so often: a run that still takes too long then fails. `repairs`
    /// counts how often it was done.
    pub fn repair(&mut self, t: &Threaded, repairs: &mut u32) -> (r: RepairStep)
        requires
            old(self).valid(),
            *old(repairs) <= MAX_REPAIRS,
            old(self).tour@.len() > 0,
            match *t {
                Threaded::Blocked(k) => k < old(self).tour@.len(),
                Threaded::NoExit => true,
                Threaded::Walked { rates, .. } => rates@.len() == old(self).tour@.len(),
            },
        ensures
            final(self).valid(),
            final(self).cands == old(self).cands,
            final(self).extracts == old(self).extracts,
            final(self).max_stops == old(self).max_stops,
            final(self).used == old(self).used,
            *final(repairs) <= MAX_REPAIRS,
            match *t {
                Threaded::Blocked(k) => r is Again && final(self).tour@ == old(self).tour@.remove(k as int)
                    && *final(repairs) == *old(repairs),
                Threaded::NoExit => (r matches RepairStep::Fail(e) && e@ == "no walkable path to any extract"@)
                    && final(self).tour@ == old(self).tour@ && *final(repairs) == *old(repairs),
                Threaded::Walked { time, limit, rates } => if !limit.lt(time) || old(self).tour@.len() == 1 {
                    r is Accept && final(self).tour@ == old(self).tour@ && *final(repairs) == *old(repairs)
                } else if *old(repairs) == MAX_REPAIRS {
                    (r matches RepairStep::Fail(e) && e@ == too_long_text()) && final(self).tour@
                        == old(self).tour@ && *final(repairs) == *old(repairs)
                } else {
                    r is Again && final(self).tour@ == old(self).tour@.remove(
                        least_at(rates@, rates@.len()),
                    ) && *final(repairs) == *old(repairs) + 1
                },
            },
    {
        match t {
            Threaded::Blocked(k) => {
                let ghost before = self.tour@;
                self.tour.remove(*k);
                proof {
                    removed_is_valid(before, *k as int, self.cands@.len());
                }
                RepairStep::Again
            },
            Threaded::NoExit => RepairStep::Fail("no walkable path to any extract".to_owned()),
            Threaded::Walked { time, limit, rates } => {
                if limit.less(*time) && self.tour.len() > 1 {
                    if *repairs == MAX_REPAIRS {
                        return RepairStep::Fail(
                            "couldn't fit a run into the budget (try fewer stops / larger budget)".to_owned(),
                        );
                    }
                    *repairs = *repairs + 1;
                    let k: usize = first_least(rates);
                    let ghost before = self.tour@;
                    self.tour.remove(k);
                    proof {
                        removed_is_valid(before, k as int, self.cands@.len());
                    }
                    RepairStep::Again
                } else {
                    RepairStep::Accept
                }
            },
        }
    }
}

/// Giving up a stop leaves the others as they are.
proof fn removed_is_valid(t: Seq<usize>, k: int, n: nat)
    requires
        0 <= k < t.len(),
        distinct(t),
        forall|i: int| 0 <= i < t.len() ==> (#[trigger] t[i]) < n,
    ensures
        distinct(t.remove(k)),
        forall|i: int| 0 <= i < t.remove(k).len() ==> (#[trigger] t.remove(k)[i]) < n,
{
    let u = t.remove(k);
    assert forall|i: int| 0 <= i < u.len() implies (#[trigger] u[i]) < n by {
        assert(u[i] == t[if i < k {
            i
        } else {
            i + 1
        }]);
    }
    assert forall|i: int, j: int| 0 <= i < j < u.len() implies #[trigger] u[i] != #[trigger] u[j] by {
        let a = if i < k {
            i
        } else {
            i + 1
        };
        let b = if j < k {
            j
        } else {
            j + 1
        };
        assert(u[i] == t[a] && u[j] == t[b]);
    }
}

/// Join the next leg of a walk to the line: its first point is where the line ends.
pub fn stitch(line: &mut Vec<V3>, leg: &Vec<V3>)
    requires
        leg@.len() > 0,
    ensures
        final(line)@ == old(line)@ + (if old(line)@.len() == 0 {
            leg@
        } else {
            leg@.skip(1)
        }),
        final(line)@.len() > 0,
{
    let ghost before = line@;
    let n: usize = leg.len();
    let from: usize = if line.len() == 0 {
        0
    } else {
        1
    };
    let mut i: usize = from;
    proof {
        assert(before + leg@.subrange(from as int, from as int) =~= before);
    }
    while i < n
        invariant
            from <= i <= n,
            n == leg@.len(),
            line@ == before + leg@.subrange(from as int, i as int),
        decreases n - i,
    {
        line.push(leg[i]);
        proof {
            assert(line@ =~= before + leg@.subrange(from as int, i + 1));
        }
        i = i + 1;
    }
    proof {
        assert(leg@.subrange(0, n as int) =~= leg@);
        assert(leg@.subrange(1, n as int) =~= leg@.skip(1));
    }
}

/// The stop for the candidate at place `i` of a tour.
pub open spec fn stop_at(cands: Seq<CandView>, tour: Seq<usize>, legs: Seq<F32>, i: int) -> StopView {
    let c = cands[tour[i] as int];
    StopView { name: c.name, value: c.value, pos: c.pos, leg: legs[i], loot_s: c.loot_s }
}

/// The values of the first `n` stops together.
pub open spec fn value_sum(cands: Seq<CandView>, tour: Seq<usize>, n: nat) -> int
    decreases n,
{
    if n == 0 {
        0
    } else {
        value_sum(cands, tour, (n - 1) as nat) + cands[tour[n - 1] as int].value
    }
}

impl Run {
    /// The values of the stops add up within the machine's numbers.
    pub open spec fn sum_fits(self) -> bool {
        forall|n: nat|
            n <= self.tour@.len() ==> i64::MIN <= #[trigger] value_sum(cand_views(self.cands@), self.tour@, n)
                <= i64::MAX
    }

    /// The stops of the finished run, with the length of the walk to each, and their value.
    pub fn stops(&self, legs: &Vec<F32>) -> (r: (Vec<PlanStop>, i64))
        requires
            self.valid(),
            legs@.len() == self.tour@.len(),
            self.sum_fits(),
        ensures
            stop_views(r.0@) == Seq::new(
                self.tour@.len(),
                |i: int| stop_at(cand_views(self.cands@), self.tour@, legs@, i),
            ),
            r.1 == value_sum(cand_views(self.cands@), self.tour@, self.tour@.len()),
    {
        let ghost views = cand_views(self.cands@);
        let mut stops: Vec<PlanStop> = Vec::new();
        let mut total: i64 = 0;
        let n: usize = self.tour.len();
        let mut i: usize = 0;
        proof {
            assert(stop_views(stops@) =~= Seq::new(0, |k: int| stop_at(views, self.tour@, legs@, k)));
        }
        while i < n
            invariant
                i <= n,
                n == self.tour@.len(),
                legs@.len() == n,
                self.valid(),
                self.sum_fits(),
                views == cand_views(self.cands@),
                stops@.len() == i,
                forall|k: int| 0 <= k < i ==> stop_views(stops@)[k] == #[trigger] stop_at(views, self.tour@, legs@, k),
                total == value_sum(views, self.tour@, i as nat),
            decreases n - i,
        {
            let ci: usize = self.tour[i];
            let c = &self.cands[ci];
            proof {
                assert(views[ci as int] == cand_view(*c));
                assert(value_sum(views, self.tour@, (i + 1) as nat) == total + c.value);
            }
            let ghost before = stops@;
            stops.push(
                PlanStop {
                    name: c.name.as_str().to_owned(),
                    value: c.value,
                    pos: c.pos,
                    leg: legs[i],
                    loot_s: c.loot_s,
                },
            );
            total = total + c.value;
            proof {
                assert forall|k: int| 0 <= k < i + 1 implies stop_views(stops@)[k] == #[trigger] stop_at(
                    views,
                    self.tour@,
                    legs@,
                    k,
                ) by {
                    if k < i {
                        assert(stop_views(stops@)[k] == stop_views(before)[k]);
                    }
                }
            }
            i = i + 1;
        }
        proof {
            assert(stop_views(stops@) =~= Seq::new(
                self.tour@.len(),
                |k: int| stop_at(views, self.tour@, legs@, k),
            ));
        }
        (stops, total)
    }
}

/// A finished run.
#[derive(Debug)]
pub struct Plan {
    pub stops: Vec<PlanStop>,
    pub extract: String,
    pub polyline: Vec<V3>,
    pub total_dist: F32,
    pub total_time: F32,
    pub total_value: i64,
}

/// What a search for a run came to.
#[derive(Debug)]
pub enum PlanOutcome {
    Found(Plan),
    Failed(String),
}

/// Show what a search for a run came to: the stops in the plan, and the walk as the one variant of
/// the route. A failure leaves an earlier route alone, unless one was being waited for. Returns the
/// number of places to go to, with the extract.
pub fn poll_plan(outcome: PlanOutcome, plan: &mut PlanResult, route: &mut RouteResult) -> (r: Option<usize>)
    requires
        outcome matches PlanOutcome::Found(p) ==> p.stops@.len() < usize::MAX,
    ensures
        match outcome {
            PlanOutcome::Found(p) => {
                &&& final(plan)@ == (PlanView {
                    status: StatusView::Ready,
                    stops: stop_views(p.stops@),
                    total_value: p.total_value,
                    total_dist: p.total_dist,
                    total_time: p.total_time,
                    extract: p.extract@,
                })
                &&& final(route)@ == (RouteView {
                    options: seq![
                        OptionView {
                            name: "Loot run"@,
                            points: p.polyline@,
                            dist: p.total_dist,
                        },
                    ],
                    dest_label: Some("Loot run \u{2192} "@ + p.extract@),
                    status: StatusView::Ready,
                    ..old(route)@
                }).choosing(0)
                &&& r == Some((p.stops@.len() + 1) as usize)
            },
            PlanOutcome::Failed(e) => {
                &&& final(plan)@ == (PlanView { status: StatusView::Error(e@), ..old(plan)@ })
                &&& final(route)@ == (if old(route)@.status is Pending {
                    RouteView { status: StatusView::Error(e@), ..old(route)@ }
                } else {
                    old(route)@
                })
                &&& r is None
            },
        },
{
    match outcome {
        PlanOutcome::Found(p) => {
            let count: usize = p.stops.len() + 1;
            let label = join2("Loot run \u{2192} ", p.extract.as_str());
            plan.stops = p.stops;
            plan.total_value = p.total_value;
            plan.total_dist = p.total_dist;
            plan.total_time = p.total_time;
            plan.extract = p.extract;
            plan.status = PlanStatus::Ready;
            let mut options: Vec<RouteOption> = Vec::new();
            options.push(
                RouteOption { name: "Loot run".to_owned(), points: p.polyline, dist: p.total_dist },
            );
            proof {
                assert(option_views(options@) =~= seq![
                    OptionView { name: "Loot run"@, points: p.polyline@, dist: p.total_dist },
                ]);
            }
            route.options = options;
            route.dest_label = Some(label);
            route.status = RouteStatus::Ready;
            route.select(0);
            Some(count)
        },
        PlanOutcome::Failed(e) => {
            let waiting = match &route.status {
                RouteStatus::Pending => true,
                _ => false,
            };
            if waiting {
                route.status = RouteStatus::Error(e.as_str().to_owned());
            }
            plan.status = PlanStatus::Error(e);
            None
        },
    }
}

/// Drop the plan and the route of the previous map.
pub fn teardown_plan(plan: &mut PlanResult, route: &mut RouteResult)
    ensures
        final(plan)@ == PlanView::idle(),
        final(route)@ == RouteView::idle(),
{
    *plan = PlanResult::default();
    route.clear();
}

/// The frames after which a scripted plan is requested.
pub const DEBUG_PLAN_FRAME: u32 = 25;

/// Whether a scripted plan is requested in this frame: once only, when enough frames have passed.
pub fn debug_plan_due(frame: &mut u32, done: &mut bool) -> (due: bool)
    requires
        *old(done) || *old(frame) < u32::MAX,
    ensures
        *old(done) ==> !due && *final(done) && *final(frame) == *old(frame),
        !*old(done) ==> *final(frame) == *old(frame) + 1 && due == (*final(frame) >= DEBUG_PLAN_FRAME)
            && *final(done) == due,
{
    if *done {
        return false;
    }
    *frame = *frame + 1;
    if *frame < DEBUG_PLAN_FRAME {
        return false;
    }
    *done = true;
    true
}

/// The least value and the most stops of a scripted plan, given its first two numbers. A first number
/// of at most 1 only switches the plan on.
pub fn scripted_plan(first: Option<i64>, second: Option<usize>) -> (r: (i64, usize))
    ensures
        r.0 == (if first is Some && first->0 > 1 {
            first->0
        } else {
            100_000
        }),
        r.1 == (match second {
            Some(n) => n,
            None => 10,
        }),
{
    let min_value: i64 = match first {
        Some(v) => if v > 1 {
            v
        } else {
            100_000
        },
        None => 100_000,
    };
    let max_stops: usize = match second {
        Some(n) => n,
        None => 10,
    };
    (min_value, max_stops)
}

} // verus!
