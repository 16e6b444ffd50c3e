//! The planner of loot runs: which loot is worth a visit, in which order, and where the run ends.
//!
//! A run is put together in three phases: stops are inserted by what they bring for the time they
//! take, crossings are undone, and the walk is threaded through the grid and shortened until it fits.
//! Distances, times and scores are worked out by the program around this library, which asks here
//! what to try next and hands back the numbers.
use vstd::prelude::*;
use crate::f32bits::{float, F32};
use crate::gpu::materials::V3;
use crate::pathfind::{
    dangers, Danger, RouteOpts, RouteResult, RouteStatus, RouteView, SpawnPoint, StatusView,
};
use crate::poi::layer::PoiLayer;
use crate::progress::{owned, PlayerProgress};
use crate::text::texts;

verus! {

/// A wish for a run.
#[derive(Clone, Copy, Debug, PartialEq, Eq, Structural)]
pub struct PlanRequest {
    /// Loot below this value is passed over.
    pub min_value: i64,
    /// The most stops; 0 clears the plan.
    pub max_stops: usize,
    /// The time for the whole raid in seconds.
    pub budget_s: F32,
}

/// How far a plan has come.
#[derive(Debug)]
pub enum PlanStatus {
    Idle,
    Pending,
    Ready,
    Error(String),
}

impl View for PlanStatus {
    type V = StatusView;

    open spec fn view(&self) -> StatusView {
        match self {
            PlanStatus::Idle => StatusView::Idle,
            PlanStatus::Pending => StatusView::Pending,
            PlanStatus::Ready => StatusView::Ready,
            PlanStatus::Error(s) => StatusView::Error(s@),
        }
    }
}

/// One stop of a run.
#[derive(Debug)]
pub struct PlanStop {
    pub name: String,
    pub value: i64,
    pub pos: V3,
    /// The metres walked to it.
    pub leg: F32,
    /// The seconds spent at it.
    pub loot_s: F32,
}

/// A stop, as a value to speak of.
#[verifier::ext_equal]
pub struct StopView {
    pub name: Seq<char>,
    pub value: i64,
    pub pos: V3,
    pub leg: F32,
    pub loot_s: F32,
}

/// What stops stand for.
pub open spec fn stop_views(v: Seq<PlanStop>) -> Seq<StopView> {
    Seq::new(
        v.len(),
        |i: int|
            StopView {
                name: v[i].name@,
                value: v[i].value,
                pos: v[i].pos,
                leg: v[i].leg,
                loot_s: v[i].loot_s,
            },
    )
}

/// The current plan.
#[derive(Debug)]
pub struct PlanResult {
    pub status: PlanStatus,
    pub stops: Vec<PlanStop>,
    pub total_value: i64,
    pub total_dist: F32,
    pub total_time: F32,
    /// The name of the extract at the end.
    pub extract: String,
}

/// A plan, as a value to speak of.
#[verifier::ext_equal]
pub struct PlanView {
    pub status: StatusView,
    pub stops: Seq<StopView>,
    pub total_value: i64,
    pub total_dist: F32,
    pub total_time: F32,
    pub extract: Seq<char>,
}

impl View for PlanResult {
    type V = PlanView;

    open spec fn view(&self) -> PlanView {
        PlanView {
            status: self.status@,
            stops: stop_views(self.stops@),
            total_value: self.total_value,
            total_dist: self.total_dist,
            total_time: self.total_time,
            extract: self.extract@,
        }
    }
}

impl PlanView {
    /// No plan.
    pub open spec fn idle() -> PlanView {
        PlanView {
            status: StatusView::Idle,
            stops: seq![],
            total_value: 0,
            total_dist: float(0),
            total_time: float(0),
            extract: seq![],
        }
    }
}

impl Default for PlanResult {
    fn default() -> (r: PlanResult)
        ensures
            r@ == PlanView::idle(),
    {
        let r = PlanResult {
            status: PlanStatus::Idle,
            stops: Vec::new(),
            total_value: 0,
            total_dist: F32 { bits: 0 },
            total_time: F32 { bits: 0 },
            extract: String::new(),
        };
        proof {
            assert(r@ =~= PlanView::idle());
        }
        r
    }
}

/// A marker of loot.
#[derive(Debug)]
pub struct LootMarker {
    pub name: String,
    pub value: i64,
    pub pos: V3,
    /// Whether it is a container.
    pub container: bool,
    pub layer: Option<PoiLayer>,
    /// The seconds that searching it takes, where they are known.
    pub loot_s: Option<F32>,
    /// Whether its value is a rare prize.
    pub jackpot: bool,
    /// How far away each lock is.
    pub lock_dist: Vec<F32>,
}

/// A lock, and the keys that open it.
#[derive(Debug)]
pub struct LockKeys(pub Vec<String>);

/// A place of loot that a run may visit.
#[derive(Debug)]
pub struct Cand {
    pub name: String,
    pub value: i64,
    pub pos: V3,
    pub loot_s: F32,
    pub jackpot: bool,
}

/// A candidate, as a value to speak of.
#[verifier::ext_equal]
pub struct CandView {
    pub name: Seq<char>,
    pub value: i64,
    pub pos: V3,
    pub loot_s: F32,
    pub jackpot: bool,
}

/// What a candidate stands for.
pub open spec fn cand_view(c: Cand) -> CandView {
    CandView { name: c.name@, value: c.value, pos: c.pos, loot_s: c.loot_s, jackpot: c.jackpot }
}

/// What candidates stand for.
pub open spec fn cand_views(v: Seq<Cand>) -> Seq<CandView> {
    Seq::new(v.len(), |i: int| cand_view(v[i]))
}

/// The bits of 5.0: the seconds that searching takes where nothing is known.
pub const DEFAULT_LOOT_S: u32 = 0x40a0_0000;

/// The most candidates that are weighed.
pub const MAX_CANDS: usize = 120;

/// The bits of 300.0: the least time for a raid.
pub const MIN_BUDGET_S: u32 = 0x4396_0000;

/// Whether a lock shuts the player out: it has keys, and the player owns none of them.
pub open spec fn shut(l: LockKeys, owned_keys: Seq<Seq<char>>) -> bool {
    l.0@.len() > 0 && forall|i: int| 0 <= i < l.0@.len() ==> !owned(owned_keys, (#[trigger] l.0@[i])@)
}

fn is_shut(l: &LockKeys, progress: &PlayerProgress) -> (r: bool)
    ensures
        r == shut(*l, texts(progress.owned_keys@)),
{
    let n: usize = l.0.len();
    if n == 0 {
        return false;
    }
    let mut i: usize = 0;
    while i < n
        invariant
            i <= n,
            n == l.0@.len(),
            forall|j: int| 0 <= j < i ==> !owned(texts(progress.owned_keys@), (#[trigger] l.0@[j])@),
        decreases n - i,
    {
        if progress.owns_key(l.0[i].as_str()) {
            return false;
        }
        i = i + 1;
    }
    true
}

/// The bits of 14: how many metres away a lock may be to shut off a place of loot.
pub const LOCK_REACH: u32 = 0x4160_0000;

/// Whether a lock that is close by shuts the player out.
pub open spec fn behind_lock(dist: Seq<F32>, locks: Seq<LockKeys>, owned_keys: Seq<Seq<char>>) -> bool {
    exists|k: int|
        0 <= k < dist.len() && k < locks.len() && dist[k].le(float(LOCK_REACH)) && shut(#[trigger] locks[k], owned_keys)
}

fn is_behind_lock(dist: &Vec<F32>, locks: &Vec<LockKeys>, progress: &PlayerProgress) -> (r: bool)
    ensures
        r == behind_lock(dist@, locks@, texts(progress.owned_keys@)),
{
    let n: usize = locks.len();
    let mut i: usize = 0;
    while i < n && i < dist.len()
        invariant
            i <= n,
            n == locks@.len(),
            i <= dist@.len(),
            forall|k: int|
                0 <= k < i ==> !(dist@[k].le(float(LOCK_REACH)) && shut(
                    #[trigger] locks@[k],
                    texts(progress.owned_keys@),
                )),
        decreases n - i,
    {
        if dist[i].less_or_equal(F32 { bits: LOCK_REACH }) && is_shut(&locks[i], progress) {
            return true;
        }
        i = i + 1;
    }
    false
}

/// Whether a marker is worth weighing: its value is high enough, it is a container or loose loot, and
/// no lock shuts it off.
pub open spec fn worth_weighing(
    m: LootMarker,
    min_value: i64,
    locks: Seq<LockKeys>,
    owned_keys: Seq<Seq<char>>,
) -> bool {
    &&& m.value >= min_value
    &&& m.container || m.layer == Some(PoiLayer::LooseLoot)
    &&& !behind_lock(m.lock_dist@, locks, owned_keys)
}

/// The candidate that a marker stands for.
pub open spec fn candidate(m: LootMarker) -> CandView {
    CandView {
        name: m.name@,
        value: m.value,
        pos: m.pos,
        loot_s: match m.loot_s {
            Some(t) => t,
            None => float(DEFAULT_LOOT_S),
        },
        jackpot: m.jackpot,
    }
}

/// The candidates among the first `n` markers.
pub open spec fn candidates(
    loot: Seq<LootMarker>,
    min_value: i64,
    locks: Seq<LockKeys>,
    owned_keys: Seq<Seq<char>>,
    n: nat,
) -> Seq<CandView>
    decreases n,
{
    if n == 0 {
        seq![]
    } else {
        let rest = candidates(loot, min_value, locks, owned_keys, (n - 1) as nat);
        if worth_weighing(loot[n - 1], min_value, locks, owned_keys) {
            rest.push(candidate(loot[n - 1]))
        } else {
            rest
        }
    }
}

/// The list with a candidate put before all that are not worth more.
pub open spec fn placed(u: CandView, v: Seq<CandView>) -> Seq<CandView>
    decreases v.len(),
{
    if v.len() == 0 {
        seq![u]
    } else if v[0].value <= u.value {
        seq![u] + v
    } else {
        seq![v[0]] + placed(u, v.drop_first())
    }
}

/// The list by falling value; candidates of one value keep their order.
pub open spec fn by_value(v: Seq<CandView>) -> Seq<CandView>
    decreases v.len(),
{
    if v.len() == 0 {
        seq![]
    } else {
        placed(v[0], by_value(v.drop_first()))
    }
}

/// The first entries of a list, as many as are weighed.
pub open spec fn foremost(v: Seq<CandView>) -> Seq<CandView> {
    if v.len() <= MAX_CANDS {
        v
    } else {
        v.take(MAX_CANDS as int)
    }
}

fn place_cand(v: &mut Vec<Cand>, u: Cand)
    ensures
        cand_views(final(v)@) == placed(cand_view(u), cand_views(old(v)@)),
{
    let ghost all = cand_views(v@);
    let ghost x = cand_view(u);
    let n: usize = v.len();
    let mut i: usize = 0;
    proof {
        assert(all.skip(0) =~= all);
        assert(all.take(0) + placed(x, all.skip(0)) =~= placed(x, all));
    }
    while i < n && v[i].value > u.value
        invariant
            i <= n,
            n == v@.len(),
            all == cand_views(v@),
            x == cand_view(u),
            placed(x, all) == all.take(i as int) + placed(x, all.skip(i as int)),
        decreases n - i,
    {
        proof {
            let t = all.skip(i as int);
            assert(t[0] == cand_view(v@[i as int]));
            assert(t.drop_first() =~= all.skip(i + 1));
            assert(all.take(i as int) + (seq![t[0]] + placed(x, t.drop_first())) =~= all.take(i + 1)
                + placed(x, all.skip(i + 1)));
        }
        i = i + 1;
    }
    proof {
        let t = all.skip(i as int);
        if i < n {
            assert(t[0] == cand_view(v@[i as int]));
        }
        assert(placed(x, t) =~= seq![x] + t);
    }
    v.insert(i, u);
    proof {
        assert(cand_views(v@) =~= all.take(i as int) + (seq![x] + all.skip(i as int)));
    }
}

fn sort_cands(list: Vec<Cand>) -> (r: Vec<Cand>)
    ensures
        cand_views(r@) == by_value(cand_views(list@)),
{
    let mut rest = list;
    let ghost all = cand_views(rest@);
    let mut r: Vec<Cand> = Vec::new();
    proof {
        assert(all.skip(rest@.len() as int) =~= Seq::<CandView>::empty());
        assert(cand_views(r@) =~= by_value(all.skip(rest@.len() as int)));
        assert(all.take(rest@.len() as int) =~= all);
    }
    while rest.len() > 0
        invariant
            rest@.len() <= all.len(),
            cand_views(rest@) == all.take(rest@.len() as int),
            cand_views(r@) == by_value(all.skip(rest@.len() as int)),
        decreases rest@.len(),
    {
        let ghost k = rest@.len() as int;
        let ghost before = rest@;
        match rest.pop() {
            Some(u) => {
                proof {
                    assert(cand_views(before)[k - 1] == cand_view(u));
                    assert(all.skip(k - 1)[0] == cand_view(u));
                    assert(all.skip(k - 1).drop_first() =~= all.skip(k));
                    assert(cand_views(rest@) =~= all.take(k - 1));
                }
                place_cand(&mut r, u);
            },
            None => {},
        }
    }
    proof {
        assert(all.skip(0) =~= all);
    }
    r
}

fn gather_cands(loot: &Vec<LootMarker>, min_value: i64, locks: &Vec<LockKeys>, progress: &PlayerProgress) -> (r: Vec<
    Cand,
>)
    ensures
        cand_views(r@) == candidates(
            loot@,
            min_value,
            locks@,
            texts(progress.owned_keys@),
            loot@.len(),
        ),
{
    let ghost keys = texts(progress.owned_keys@);
    let mut r: Vec<Cand> = Vec::new();
    let n: usize = loot.len();
    let mut i: usize = 0;
    proof {
        assert(cand_views(r@) =~= candidates(loot@, min_value, locks@, keys, 0));
    }
    while i < n
        invariant
            i <= n,
            n == loot@.len(),
            keys == texts(progress.owned_keys@),
            cand_views(r@) == candidates(loot@, min_value, locks@, keys, i as nat),
        decreases n - i,
    {
        let m = &loot[i];
        let kind_ok = m.container || match m.layer {
            Some(PoiLayer::LooseLoot) => true,
            _ => false,
        };
        if m.value >= min_value && kind_ok && !is_behind_lock(&m.lock_dist, locks, progress) {
            let ghost before = r@;
            let c = Cand {
                name: m.name.as_str().to_owned(),
                value: m.value,
                pos: m.pos,
                loot_s: match m.loot_s {
                    Some(t) => t,
                    None => F32 { bits: DEFAULT_LOOT_S },
                },
                jackpot: m.jackpot,
            };
            r.push(c);
            proof {
                assert(cand_views(r@) =~= cand_views(before).push(cand_view(c)));
            }
        }
        i = i + 1;
    }
    r
}

/// A marker on the map, as far as the planner looks at it.
#[derive(Debug)]
pub struct MapMark {
    pub layer: PoiLayer,
    pub pos: V3,
    pub name: String,
    pub inactive: bool,
}

/// An extract that a run may end at.
#[derive(Debug)]
pub struct Exit {
    pub name: String,
    pub pos: V3,
}

/// What exits stand for.
pub open spec fn exit_views(v: Seq<Exit>) -> Seq<(Seq<char>, V3)> {
    Seq::new(v.len(), |i: int| (v[i].name@, v[i].pos))
}

/// The active extracts among the first `n` markers.
pub open spec fn active_exits(v: Seq<MapMark>, n: nat) -> Seq<(Seq<char>, V3)>
    decreases n,
{
    if n == 0 {
        seq![]
    } else {
        let rest = active_exits(v, (n - 1) as nat);
        if v[n - 1].layer == PoiLayer::Extract && !v[n - 1].inactive {
            rest.push((v[n - 1].name@, v[n - 1].pos))
        } else {
            rest
        }
    }
}

fn find_exits(v: &Vec<MapMark>) -> (r: Vec<Exit>)
    ensures
        exit_views(r@) == active_exits(v@, v@.len()),
{
    let mut r: Vec<Exit> = Vec::new();
    let n: usize = v.len();
    let mut i: usize = 0;
    proof {
        assert(exit_views(r@) =~= active_exits(v@, 0));
    }
    while i < n
        invariant
            i <= n,
            n == v@.len(),
            exit_views(r@) == active_exits(v@, i as nat),
        decreases n - i,
    {
        let m = &v[i];
        let is_extract = match m.layer {
            PoiLayer::Extract => true,
            _ => false,
        };
        if is_extract && !m.inactive {
            let ghost before = r@;
            r.push(Exit { name: m.name.as_str().to_owned(), pos: m.pos });
            proof {
                assert(exit_views(r@) =~= exit_views(before).push((m.name@, m.pos)));
            }
        }
        i = i + 1;
    }
    r
}

/// The markers as spawns that may be avoided.
pub open spec fn spawn_points(v: Seq<MapMark>) -> Seq<SpawnPoint> {
    Seq::new(v.len(), |i: int| SpawnPoint { layer: v[i].layer, pos: v[i].pos })
}

fn to_spawn_points(v: &Vec<MapMark>) -> (r: Vec<SpawnPoint>)
    ensures
        r@ == spawn_points(v@),
{
    let mut r: Vec<SpawnPoint> = Vec::new();
    let n: usize = v.len();
    let mut i: usize = 0;
    while i < n
        invariant
            i <= n,
            n == v@.len(),
            r@ == spawn_points(v@).take(i as int),
        decreases n - i,
    {
        r.push(SpawnPoint { layer: v[i].layer, pos: v[i].pos });
        proof {
            assert(r@ =~= spawn_points(v@).take(i + 1));
        }
        i = i + 1;
    }
    proof {
        assert(spawn_points(v@).take(n as int) =~= spawn_points(v@));
    }
    r
}

/// A run that is to be planned in the background.
#[derive(Debug)]
pub struct PlanJob {
    pub start: V3,
    pub cands: Vec<Cand>,
    pub extracts: Vec<Exit>,
    pub max_stops: usize,
    pub budget: F32,
    pub avoid: Vec<Danger>,
}

/// What a frame's requests lead to.
#[derive(Debug)]
pub enum PlanDispatch {
    /// Nothing is done to a running search.
    Nothing,
    /// The running search is dropped.
    Cancel,
    /// This search takes the place of the running one.
    Start(PlanJob),
}

/// What a request is answered with before any search.
pub enum Verdict {
    /// The plan is cleared.
    Clear,
    /// The plan fails with this text.
    Refuse(Seq<char>),
    /// A search is run.
    Search,
}

/// What the planner knows of a map.
pub struct PlanInput {
    /// Whether there is a grid to search.
    pub grid: bool,
    pub loot: Vec<LootMarker>,
    pub locks: Vec<LockKeys>,
    pub marks: Vec<MapMark>,
    pub pin: Option<V3>,
    pub camera: Option<V3>,
    pub opts: RouteOpts,
}

impl PlanInput {
    /// The candidates that are weighed.
    pub open spec fn weighed(self, min_value: i64, owned_keys: Seq<Seq<char>>) -> Seq<CandView> {
        foremost(
            by_value(
                candidates(self.loot@, min_value, self.locks@, owned_keys, self.loot@.len()),
            ),
        )
    }

    /// What a request is answered with.
    pub open spec fn verdict(self, req: PlanRequest, owned_keys: Seq<Seq<char>>) -> Verdict {
        if req.max_stops == 0 {
            Verdict::Clear
        } else if !self.grid {
            Verdict::Refuse("no route data for this map"@)
        } else if self.weighed(req.min_value, owned_keys).len() == 0 {
            Verdict::Refuse("no loot above the value filter on this map"@)
        } else if active_exits(self.marks@, self.marks@.len()).len() == 0 {
            Verdict::Refuse("no active extracts on this map"@)
        } else {
            Verdict::Search
        }
    }

    /// Whether a job is the one that a request asks for.
    pub open spec fn job_for(self, j: PlanJob, req: PlanRequest, owned_keys: Seq<Seq<char>>) -> bool {
        &&& j.start == crate::pathfind::start_of(None, self.pin, self.camera)
        &&& cand_views(j.cands@) == self.weighed(req.min_value, owned_keys)
        &&& exit_views(j.extracts@) == active_exits(self.marks@, self.marks@.len())
        &&& j.max_stops == req.max_stops
        &&& j.budget == req.budget_s.larger(float(MIN_BUDGET_S))
        &&& j.avoid@ == dangers(self.opts, spawn_points(self.marks@), self.marks@.len())
    }
}

/// Answer the requests of a frame, of which the last one counts.
pub fn dispatch_plan(
    requests: &Vec<PlanRequest>,
    input: &PlanInput,
    progress: &PlayerProgress,
    plan: &mut PlanResult,
    route: &mut RouteResult,
) -> (r: PlanDispatch)
    ensures
        requests@.len() == 0 ==> r is Nothing && final(plan)@ == old(plan)@ && final(route)@ == old(route)@,
        requests@.len() > 0 ==> (match input.verdict(requests@.last(), texts(progress.owned_keys@)) {
            Verdict::Clear => r is Cancel && final(plan)@ == PlanView::idle() && final(route)@ == old(route)@,
            Verdict::Refuse(e) => r is Nothing && final(plan)@ == (PlanView {
                status: StatusView::Error(e),
                ..old(plan)@
            }) && final(route)@ == old(route)@,
            Verdict::Search => (r matches PlanDispatch::Start(j) && input.job_for(
                j,
                requests@.last(),
                texts(progress.owned_keys@),
            )) && final(plan)@ == (PlanView { status: StatusView::Pending, ..old(plan)@ }) && final(route)@ == (RouteView { status: StatusView::Pending, ..old(route)@ }),
        }),
{
    let n: usize = requests.len();
    if n == 0 {
        return PlanDispatch::Nothing;
    }
    let req = requests[n - 1];
    if req.max_stops == 0 {
        *plan = PlanResult::default();
        return PlanDispatch::Cancel;
    }
    if !input.grid {
        plan.status = PlanStatus::Error("no route data for this map".to_owned());
        return PlanDispatch::Nothing;
    }
    let start: V3 = match input.pin {
        Some(p) => p,
        None => match input.camera {
            Some(p) => p,
            None => V3 { x: F32 { bits: 0 }, y: F32 { bits: 0 }, z: F32 { bits: 0 } },
        },
    };
    let found = gather_cands(&input.loot, req.min_value, &input.locks, progress);
    let mut cands = sort_cands(found);
    let ghost sorted = cand_views(cands@);
    proof {
        assert(sorted.len() == cands@.len());
    }
    let total: usize = cands.len();
    if total > MAX_CANDS {
        cands.truncate(MAX_CANDS);
    }
    proof {
        assert(cand_views(cands@) =~= foremost(sorted));
        assert(cand_views(cands@).len() == cands@.len());
    }
    if cands.len() == 0 {
        plan.status = PlanStatus::Error("no loot above the value filter on this map".to_owned());
        return PlanDispatch::Nothing;
    }
    let extracts = find_exits(&input.marks);
    proof {
        assert(exit_views(extracts@).len() == extracts@.len());
    }
    if extracts.len() == 0 {
        plan.status = PlanStatus::Error("no active extracts on this map".to_owned());
        return PlanDispatch::Nothing;
    }
    let spawns = to_spawn_points(&input.marks);
    plan.status = PlanStatus::Pending;
    route.status = RouteStatus::Pending;
    PlanDispatch::Start(
        PlanJob {
            start,
            cands,
            extracts,
            max_stops: req.max_stops,
            budget: req.budget_s.max(F32 { bits: MIN_BUDGET_S }),
            avoid: crate::pathfind::find_dangers(input.opts, &spawns),
        },
    )
}

/// Whether values never rise along a list.
pub open spec fn falling(v: Seq<CandView>) -> bool {
    forall|i: int, j: int|
        0 <= i < j < v.len() ==> (#[trigger] v[i]).value >= (#[trigger] v[j]).value
}

/// Whether no value of a list is above `x`.
spec fn at_most(v: Seq<CandView>, x: int) -> bool {
    forall|i: int| 0 <= i < v.len() ==> (#[trigger] v[i]).value <= x
}

/// Putting a candidate into its place keeps the values falling and adds just that candidate.
proof fn placed_is_falling(u: CandView, v: Seq<CandView>)
    requires
        falling(v),
    ensures
        falling(placed(u, v)),
        placed(u, v).to_multiset() == v.to_multiset().insert(u),
        placed(u, v).len() == v.len() + 1,
        forall|x: int| #[trigger] at_most(v, x) && u.value <= x ==> at_most(placed(u, v), x),
    decreases v.len(),
{
    broadcast use vstd::seq_lib::group_to_multiset_ensures;

    let r = placed(u, v);
    if v.len() == 0 {
        assert(r =~= v.push(u));
    } else if v[0].value <= u.value {
        assert(r =~= v.insert(0, u));
        vstd::seq_lib::to_multiset_insert(v, 0, u);
        assert forall|i: int, j: int| 0 <= i < j < r.len() implies (#[trigger] r[i]).value
            >= (#[trigger] r[j]).value by {
            assert(r[j] == v[j - 1]);
            if i > 0 {
                assert(r[i] == v[i - 1]);
            } else if j > 1 {
                assert(v[0].value >= v[j - 1].value);
            }
        }
        assert forall|x: int| #[trigger] at_most(v, x) && u.value <= x implies at_most(r, x) by {
            assert forall|i: int| 0 <= i < r.len() implies (#[trigger] r[i]).value <= x by {
                if i > 0 {
                    assert(r[i] == v[i - 1]);
                }
            }
        }
    } else {
        let w = v.drop_first();
        assert forall|i: int, j: int| 0 <= i < j < w.len() implies (#[trigger] w[i]).value
            >= (#[trigger] w[j]).value by {
            assert(w[i] == v[i + 1] && w[j] == v[j + 1]);
        }
        placed_is_falling(u, w);
        let t = placed(u, w);
        assert(r =~= t.insert(0, v[0]));
        vstd::seq_lib::to_multiset_insert(t, 0, v[0]);
        vstd::seq_lib::to_multiset_insert(w, 0, v[0]);
        assert(w.insert(0, v[0]) =~= v);
        assert(r.to_multiset() =~= v.to_multiset().insert(u));
        assert(at_most(w, v[0].value as int)) by {
            assert forall|i: int| 0 <= i < w.len() implies (#[trigger] w[i]).value <= v[0].value by {
                assert(w[i] == v[i + 1]);
            }
        }
        assert(at_most(t, v[0].value as int));
        assert forall|i: int, j: int| 0 <= i < j < r.len() implies (#[trigger] r[i]).value
            >= (#[trigger] r[j]).value by {
            assert(r[j] == t[j - 1]);
            if i > 0 {
                assert(r[i] == t[i - 1]);
            }
        }
        assert forall|x: int| #[trigger] at_most(v, x) && u.value <= x implies at_most(r, x) by {
            assert(at_most(w, x)) by {
                assert forall|i: int| 0 <= i < w.len() implies (#[trigger] w[i]).value <= x by {
                    assert(w[i] == v[i + 1]);
                }
            }
            assert forall|i: int| 0 <= i < r.len() implies (#[trigger] r[i]).value <= x by {
                if i > 0 {
                    assert(r[i] == t[i - 1]);
                }
            }
        }
    }
}

/// Sorting by value gives the same candidates, the most valuable first.
pub proof fn candidates_are_sorted(v: Seq<CandView>)
    ensures
        falling(by_value(v)),
        by_value(v).to_multiset() == v.to_multiset(),
    decreases v.len(),
{
    broadcast use vstd::seq_lib::group_to_multiset_ensures;

    if v.len() > 0 {
        let w = v.drop_first();
        candidates_are_sorted(w);
        placed_is_falling(v[0], by_value(w));
        vstd::seq_lib::to_multiset_insert(w, 0, v[0]);
        assert(w.insert(0, v[0]) =~= v);
    } else {
        assert(v =~= Seq::<CandView>::empty());
    }
}

/// What is weighed is worth at least as much as anything that is left out for want of room.
pub proof fn weighed_are_most_valuable(v: Seq<CandView>, i: int, j: int)
    requires
        0 <= i < foremost(by_value(v)).len(),
        foremost(by_value(v)).len() <= j < by_value(v).len(),
    ensures
        foremost(by_value(v))[i].value >= by_value(v)[j].value,
        foremost(by_value(v)).len() == MAX_CANDS,
{
    candidates_are_sorted(v);
    assert(foremost(by_value(v))[i] == by_value(v)[i]);
}

} // verus!
