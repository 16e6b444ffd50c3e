//! The search for a loot run, step by step: insert stops, undo crossings, walk the run and give up
//! stops until it fits.
//!
//! Whoever runs the search knows the grid. Each step asks for what only the grid can tell, and goes on
//! with the answer.
use vstd::prelude::*;
use crate::f32bits::F32;
use crate::loot_run::{
    best_offer, fitting, flagged, insert_contains, least_at, least_is_least, offers_are_open, offers_of, too_long_text,
    turned, turning_keeps_stops,
};
use crate::loot_run::{Offer, RepairStep, Run, Threaded, Untangle, Weighed, MAX_REPAIRS, MAX_TRIES};
use crate::planner::{cand_views, exit_views, PlanJob};

verus! {

/// What a search asks for next.
#[derive(Debug)]
pub enum Stage {
    /// What each offer of the run comes to.
    Weigh,
    /// How long the ways around a pair of stops are.
    Compare(Untangle),
    /// A walk through the run.
    Walk,
    /// Nothing: the run stands.
    Ready,
    /// Nothing: there is no run.
    Failed(String),
}

/// What a search asks for next, as a value to speak of.
#[verifier::ext_equal]
pub enum StageView {
    Weigh,
    Compare(Untangle),
    Walk,
    Ready,
    Failed(Seq<char>),
}

impl View for Stage {
    type V = StageView;

    open spec fn view(&self) -> StageView {
        match *self {
            Stage::Weigh => StageView::Weigh,
            Stage::Compare(u) => StageView::Compare(u),
            Stage::Walk => StageView::Walk,
            Stage::Ready => StageView::Ready,
            Stage::Failed(e) => StageView::Failed(e@),
        }
    }
}

/// A search for a loot run.
#[derive(Debug)]
pub struct Search {
    pub run: Run,
    pub stage: Stage,
    /// How many walks were asked for.
    pub tries: u32,
    /// How many stops were given up because the run took too long.
    pub repairs: u32,
}

/// Where a search stands. What it chooses from, the candidates and the extracts, is not part of it: no
/// step changes them, as `same_job` says.
#[verifier::ext_equal]
pub struct SearchView {
    pub tour: Seq<usize>,
    pub used: Seq<bool>,
    pub max_stops: int,
    pub stage: StageView,
    pub tries: int,
    pub repairs: int,
}

impl View for Search {
    type V = SearchView;

    open spec fn view(&self) -> SearchView {
        SearchView {
            tour: self.run.tour@,
            used: self.run.used@,
            max_stops: self.run.max_stops as int,
            stage: self.stage@,
            tries: self.tries as int,
            repairs: self.repairs as int,
        }
    }
}

impl SearchView {
    /// A walk is asked for, unless no stop is left or all walks are used up.
    pub open spec fn to_walk(self) -> SearchView {
        if self.tries == MAX_TRIES {
            SearchView { stage: StageView::Failed(too_long_text()), ..self }
        } else if self.tour.len() == 0 {
            SearchView {
                stage: StageView::Failed("no reachable loot within the budget"@),
                tries: self.tries + 1,
                ..self
            }
        } else {
            SearchView { stage: StageView::Walk, tries: self.tries + 1, ..self }
        }
    }

    /// The stops are chosen: crossings are looked for, where there are two stops at least.
    pub open spec fn to_compare(self) -> SearchView {
        if self.tour.len() == 0 {
            SearchView {
                stage: StageView::Failed("budget too small \u{2014} no loot fits before the extract"@),
                ..self
            }
        } else if self.tour.len() < 2 {
            self.to_walk()
        } else {
            SearchView {
                stage: StageView::Compare(
                    Untangle { n: self.tour.len() as usize, i: 1, j: 2, improved: false, done: false },
                ),
                ..self
            }
        }
    }

    /// Another stop is asked for, unless there are as many as may be.
    pub open spec fn to_weigh(self) -> SearchView {
        if self.tour.len() < self.max_stops {
            SearchView { stage: StageView::Weigh, ..self }
        } else {
            self.to_compare()
        }
    }

    /// The offers are weighed: the best that fits is taken, and where none fits, no more is asked for.
    pub open spec fn weighed(self, v: Seq<Weighed>, budget: F32) -> SearchView {
        match best_offer(fitting(v, budget), v.len()) {
            Some(k) => {
                let o = offers_of(self.used, self.tour.len(), self.used.len())[k];
                SearchView {
                    tour: self.tour.insert(o.slot as int, o.cand),
                    used: self.used.update(o.cand as int, true),
                    ..self
                }.to_weigh()
            },
            None => self.to_compare(),
        }
    }

    /// The ways around a pair are compared.
    pub open spec fn compared(self, turned_way: F32, as_is: F32) -> SearchView {
        match self.stage {
            StageView::Compare(u) => {
                let better = turned_way.lt(as_is);
                let next = u.after(better);
                let tour = if better {
                    turned(self.tour, u.i - 1, u.j as int)
                } else {
                    self.tour
                };
                if next.done {
                    SearchView { tour, ..self }.to_walk()
                } else {
                    SearchView { tour, stage: StageView::Compare(next), ..self }
                }
            },
            _ => self,
        }
    }

    /// The run was walked, or could not be.
    pub open spec fn walked(self, t: Threaded) -> SearchView {
        match t {
            Threaded::Blocked(k) => SearchView { tour: self.tour.remove(k as int), ..self }.to_walk(),
            Threaded::NoExit => SearchView {
                stage: StageView::Failed("no walkable path to any extract"@),
                ..self
            },
            Threaded::Walked { time, limit, rates } => if !limit.lt(time) || self.tour.len() == 1 {
                SearchView { stage: StageView::Ready, ..self }
            } else if self.repairs == MAX_REPAIRS {
                SearchView { stage: StageView::Failed(too_long_text()), ..self }
            } else {
                SearchView {
                    tour: self.tour.remove(least_at(rates@, rates@.len())),
                    repairs: self.repairs + 1,
                    ..self
                }.to_walk()
            },
        }
    }
}

impl Search {
    /// The run visits candidates, none twice and no more than may be; what is asked for can be
    /// answered.
    pub open spec fn valid(self) -> bool {
        &&& self.run.valid()
        &&& self.run.tour@.len() <= self.run.max_stops
        &&& self.tries <= MAX_TRIES
        &&& self.repairs <= MAX_REPAIRS
        &&& match self.stage {
            Stage::Weigh => self.run.inserting() && self.run.tour@.len() < self.run.max_stops,
            Stage::Compare(u) => u.valid() && !u.done && u.n == self.run.tour@.len(),
            Stage::Walk => self.run.tour@.len() > 0,
            Stage::Ready => self.run.tour@.len() > 0,
            Stage::Failed(_) => true,
        }
    }

    /// What a run is made from stays.
    pub open spec fn same_job(self, other: Search) -> bool {
        &&& self.run.cands == other.run.cands
        &&& self.run.extracts == other.run.extracts
        &&& self.run.max_stops == other.run.max_stops
    }

    fn go_to_walk(&mut self)
        requires
            old(self).run.valid(),
            old(self).run.tour@.len() <= old(self).run.max_stops,
            old(self).tries <= MAX_TRIES,
            old(self).repairs <= MAX_REPAIRS,
        ensures
            final(self).valid(),
            final(self)@ == old(self)@.to_walk(),
            final(self).same_job(*old(self)),
    {
        let mut tries: u32 = self.tries;
        let end = self.run.begin_try(&mut tries);
        self.tries = tries;
        match end {
            Some(e) => {
                self.stage = Stage::Failed(e);
            },
            None => {
                self.stage = Stage::Walk;
            },
        }
    }

    fn go_to_compare(&mut self)
        requires
            old(self).run.valid(),
            old(self).run.tour@.len() <= old(self).run.max_stops,
            old(self).tries <= MAX_TRIES,
            old(self).repairs <= MAX_REPAIRS,
        ensures
            final(self).valid(),
            final(self)@ == old(self)@.to_compare(),
            final(self).same_job(*old(self)),
    {
        match self.run.check_inserted() {
            Err(e) => {
                self.stage = Stage::Failed(e);
            },
            Ok(_) => {
                let u = Untangle::new(self.run.tour.len());
                if u.done {
                    self.go_to_walk();
                } else {
                    self.stage = Stage::Compare(u);
                }
            },
        }
    }

    fn go_to_weigh(&mut self)
        requires
            old(self).run.inserting(),
            old(self).tries <= MAX_TRIES,
            old(self).repairs <= MAX_REPAIRS,
        ensures
            final(self).valid(),
            final(self)@ == old(self)@.to_weigh(),
            final(self).same_job(*old(self)),
    {
        if self.run.wants_more() {
            self.stage = Stage::Weigh;
        } else {
            self.go_to_compare();
        }
    }

    /// Begin a search with what can be reached: the flags say which candidates and which extracts can
    /// be, and whether the start is on the grid at all.
    pub fn begin(job: &PlanJob, start_ok: bool, cand_ok: &Vec<bool>, exit_ok: &Vec<bool>) -> (r: Result<
        Search,
        String,
    >)
        requires
            cand_ok@.len() == job.cands@.len(),
            exit_ok@.len() == job.extracts@.len(),
        ensures
            ({
                let cands = flagged(cand_views(job.cands@), cand_ok@, job.cands@.len());
                let exits = flagged(exit_views(job.extracts@), exit_ok@, job.extracts@.len());
                match r {
                    Ok(s) => {
                        &&& start_ok && cands.len() > 0 && exits.len() > 0
                        &&& s.valid()
                        &&& cand_views(s.run.cands@) == cands
                        &&& exit_views(s.run.extracts@) == exits
                        &&& s@ == (SearchView {
                            tour: Seq::<usize>::empty(),
                            used: Seq::new(cands.len(), |i: int| false),
                            max_stops: job.max_stops as int,
                            stage: StageView::Weigh,
                            tries: 0,
                            repairs: 0,
                        }).to_weigh()
                    },
                    Err(e) => {
                        ||| !start_ok && e@ == "start is off the walkable mesh"@
                        ||| start_ok && cands.len() == 0 && e@
                            == "no reachable loot above the value filter within the budget"@
                        ||| start_ok && cands.len() > 0 && exits.len() == 0 && e@
                            == "no reachable extract within the budget"@
                    },
                }
            }),
    {
        match Run::new(job, start_ok, cand_ok, exit_ok) {
            Err(e) => Err(e),
            Ok(run) => {
                let mut s = Search { run, stage: Stage::Weigh, tries: 0, repairs: 0 };
                proof {
                    assert(cand_views(s.run.cands@).len() == s.run.cands@.len());
                    assert(s.run.tour@ =~= Seq::<usize>::empty());
                    assert forall|c: int| 0 <= c < s.run.used@.len() implies !#[trigger] s.run.used@[c] by {
                        assert(s.run.used@[c] <==> s.run.tour@.contains(c as usize));
                    }
                    assert(s.run.used@ =~= Seq::new(s.run.used@.len(), |i: int| false));
                }
                s.go_to_weigh();
                Ok(s)
            },
        }
    }

    /// The offers to weigh, in the order in which they are weighed.
    pub fn offers(&self) -> (r: Vec<Offer>)
        requires
            self.valid(),
            self.stage is Weigh,
        ensures
            r@ == offers_of(self.run.used@, self.run.tour@.len(), self.run.used@.len()),
    {
        self.run.offers()
    }

    /// Go on with what each offer comes to. Returns which offer was taken; none where none fits.
    pub fn weigh(&mut self, weighed: &Vec<Weighed>, budget: F32) -> (r: Option<usize>)
        requires
            old(self).valid(),
            old(self).stage is Weigh,
            weighed@.len() == offers_of(
                old(self).run.used@,
                old(self).run.tour@.len(),
                old(self).run.used@.len(),
            ).len(),
        ensures
            final(self).valid(),
            final(self)@ == old(self)@.weighed(weighed@, budget),
            final(self).same_job(*old(self)),
            match r {
                Some(k) => best_offer(fitting(weighed@, budget), weighed@.len()) == Some(k as int),
                None => best_offer(fitting(weighed@, budget), weighed@.len()) is None,
            },
    {
        let offers = self.run.offers();
        let r = self.run.insert_best(&offers, weighed, budget);
        match r {
            Some(_) => self.go_to_weigh(),
            None => self.go_to_compare(),
        }
        r
    }

    /// The pair of stops whose ways are to be compared.
    pub fn pair(&self) -> (r: Option<(usize, usize)>)
        requires
            self.valid(),
        ensures
            r == (match self.stage@ {
                StageView::Compare(u) => Some((u.i, u.j)),
                _ => None,
            }),
            r matches Some(p) ==> 1 <= p.0 < p.1 <= self.run.tour@.len(),
    {
        match &self.stage {
            Stage::Compare(u) => Some((u.i, u.j)),
            _ => None,
        }
    }

    /// Go on with the ways around the pair: how long they are, and a margin, once the stops between
    /// are turned around, and how long they are as they are.
    pub fn compare(&mut self, turned_way: F32, as_is: F32)
        requires
            old(self).valid(),
            old(self).stage is Compare,
        ensures
            final(self).valid(),
            final(self)@ == old(self)@.compared(turned_way, as_is),
            final(self).same_job(*old(self)),
    {
        let mut u = match &self.stage {
            Stage::Compare(u) => *u,
            _ => Untangle::new(0),
        };
        let ghost i = u.i;
        let ghost j = u.j;
        let ghost before = self.run.tour@;
        u.answer(&mut self.run.tour, turned_way, as_is);
        proof {
            turning_keeps_stops(before, i - 1, j as int);
            assert forall|k: int| 0 <= k < self.run.tour@.len() implies (#[trigger] self.run.tour@[k])
                < self.run.cands@.len() by {
                assert(self.run.tour@.contains(self.run.tour@[k]));
                let at = choose|at: int| 0 <= at < before.len() && before[at] == self.run.tour@[k];
                assert(before[at] < self.run.cands@.len());
            }
        }
        if u.done {
            self.go_to_walk();
        } else {
            self.stage = Stage::Compare(u);
        }
    }

    /// Go on with what walking the run came to.
    pub fn walk(&mut self, t: &Threaded)
        requires
            old(self).valid(),
            old(self).stage is Walk,
            match *t {
                Threaded::Blocked(k) => k < old(self).run.tour@.len(),
                Threaded::NoExit => true,
                Threaded::Walked { rates, .. } => rates@.len() == old(self).run.tour@.len(),
            },
        ensures
            final(self).valid(),
            final(self)@ == old(self)@.walked(*t),
            final(self).same_job(*old(self)),
    {
        proof {
            if let Threaded::Walked { rates, .. } = t {
                if rates@.len() > 0 {
                    least_is_least(rates@, rates@.len());
                }
            }
        }
        let mut repairs: u32 = self.repairs;
        let step = self.run.repair(t, &mut repairs);
        self.repairs = repairs;
        match step {
            RepairStep::Again => self.go_to_walk(),
            RepairStep::Fail(e) => {
                self.stage = Stage::Failed(e);
            },
            RepairStep::Accept => {
                self.stage = Stage::Ready;
            },
        }
    }
}

/// A run that stands was walked, and takes no longer than it may, unless it has one stop only.
pub proof fn a_ready_run_fits(s: SearchView, t: Threaded)
    requires
        s.walked(t).stage is Ready,
    ensures
        t is Walked,
        !t->limit.lt(t->time) || s.tour.len() == 1,
        s.walked(t).tour == s.tour,
{
}

/// Every walk uses up a try: after the last one the search ends.
pub proof fn the_walks_end(s: SearchView, t: Threaded)
    ensures
        s.walked(t).stage is Walk ==> s.walked(t).tries == s.tries + 1,
        s.tries == MAX_TRIES ==> s.walked(t).stage is Ready || s.walked(t).stage is Failed,
{
}

/// The best offer is one of those that were weighed.
proof fn best_is_weighed(scores: Seq<Option<F32>>, n: nat)
    requires
        n <= scores.len(),
    ensures
        best_offer(scores, n) matches Some(k) ==> 0 <= k < n,
    decreases n,
{
    if n > 0 {
        best_is_weighed(scores, (n - 1) as nat);
    }
}

/// A stop stays a stop until the run is walked: weighing another one loses none.
pub proof fn weighing_keeps_stops(s: Search, v: Seq<Weighed>, budget: F32, c: usize)
    requires
        s.valid(),
        s.stage is Weigh,
        v.len() == offers_of(s.run.used@, s.run.tour@.len(), s.run.used@.len()).len(),
        s.run.tour@.contains(c),
    ensures
        s@.weighed(v, budget).tour.contains(c),
{
    let scores = fitting(v, budget);
    best_is_weighed(scores, v.len());
    if let Some(k) = best_offer(scores, v.len()) {
        let used = s.run.used@;
        let tour = s.run.tour@;
        assert(used.len() == s.run.used.len());
        offers_are_open(used, tour.len(), used.len(), k, s.run.tour.len());
        let o = offers_of(used, tour.len(), used.len())[k];
        insert_contains(tour, o.slot as int, o.cand, c);
    }
}

/// A stop stays a stop until the run is walked: undoing a crossing loses none and adds none.
pub proof fn comparing_keeps_stops(s: Search, turned_way: F32, as_is: F32, c: usize)
    requires
        s.valid(),
        s.stage is Compare,
    ensures
        s@.compared(turned_way, as_is).tour.contains(c) == s.run.tour@.contains(c),
{
    if let Stage::Compare(u) = s.stage {
        turning_keeps_stops(s.run.tour@, u.i - 1, u.j as int);
    }
}

} // verus!
