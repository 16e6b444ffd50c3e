//! Requests for routes, the jobs that answer them, and the route that is shown.
//!
//! The search over the walkable grid, and all geometry, is done by the program around this library;
//! what is asked of it, and what becomes of its answers, is decided here.
use vstd::prelude::*;
use crate::compose::maybe_text;
use crate::f32bits::{float, F32};
use crate::gpu::materials::V3;
use crate::poi::layer::PoiLayer;
use crate::poi::marker::copy_points;
use crate::settings::{numbers_of, says};
use crate::text::{copy_texts, same_ignoring_ascii_case, split_at_char, trim};
use crate::text::{ascii_lowered, pieces, texts, trimmed};

verus! {

/// A wish for a route: from a start, where one is given, to destinations. No destinations clear the
/// route.
#[derive(Debug)]
pub struct RouteRequest {
    pub start: Option<V3>,
    pub dests: Vec<V3>,
    /// Whether the order of the visits may be chosen.
    pub optimize_order: bool,
    /// Whether the destinations are alternatives, of which the one that is cheapest to reach counts.
    pub nearest_of: bool,
    /// Labels of the destinations; fewer where some have none.
    pub labels: Vec<String>,
}

/// How far a route has come.
#[derive(Debug)]
pub enum RouteStatus {
    Idle,
    Pending,
    Ready,
    Error(String),
}

/// A status, as a value to speak of.
pub enum StatusView {
    Idle,
    Pending,
    Ready,
    Error(Seq<char>),
}

impl View for RouteStatus {
    type V = StatusView;

    open spec fn view(&self) -> StatusView {
        match self {
            RouteStatus::Idle => StatusView::Idle,
            RouteStatus::Pending => StatusView::Pending,
            RouteStatus::Ready => StatusView::Ready,
            RouteStatus::Error(s) => StatusView::Error(s@),
        }
    }
}

/// One variant of a route.
#[derive(Debug)]
pub struct RouteOption {
    pub name: String,
    pub points: Vec<V3>,
    /// The metres to walk.
    pub dist: F32,
}

/// A variant, as a value to speak of.
#[verifier::ext_equal]
pub struct OptionView {
    pub name: Seq<char>,
    pub points: Seq<V3>,
    pub dist: F32,
}

/// What variants stand for.
pub open spec fn option_views(v: Seq<RouteOption>) -> Seq<OptionView> {
    Seq::new(
        v.len(),
        |i: int| OptionView { name: v[i].name@, points: v[i].points@, dist: v[i].dist },
    )
}

/// The route that is shown: all variants, and the chosen one, whose line and length are repeated.
#[derive(Debug)]
pub struct RouteResult {
    pub points: Vec<V3>,
    pub dist: F32,
    pub status: RouteStatus,
    /// The label of the destination.
    pub dest_label: Option<String>,
    pub options: Vec<RouteOption>,
    pub selected: usize,
}

/// A route, as a value to speak of.
#[verifier::ext_equal]
pub struct RouteView {
    pub points: Seq<V3>,
    pub dist: F32,
    pub status: StatusView,
    pub dest_label: Option<Seq<char>>,
    pub options: Seq<OptionView>,
    pub selected: int,
}

impl View for RouteResult {
    type V = RouteView;

    open spec fn view(&self) -> RouteView {
        RouteView {
            points: self.points@,
            dist: self.dist,
            status: self.status@,
            dest_label: maybe_text(self.dest_label),
            options: option_views(self.options@),
            selected: self.selected as int,
        }
    }
}

impl RouteView {
    /// No route.
    pub open spec fn idle() -> RouteView {
        RouteView {
            points: seq![],
            dist: float(0),
            status: StatusView::Idle,
            dest_label: None,
            options: seq![],
            selected: 0,
        }
    }

    /// The route with variant `i` chosen; unchanged where there is none.
    pub open spec fn choosing(self, i: int) -> RouteView {
        if 0 <= i < self.options.len() {
            RouteView {
                selected: i,
                points: self.options[i].points,
                dist: self.options[i].dist,
                ..self
            }
        } else {
            self
        }
    }

    /// Whether line and length are those of the chosen variant; without variants there is no line.
    pub open spec fn mirrors(self) -> bool {
        if self.options.len() == 0 {
            self.points.len() == 0 && self.dist == float(0) && self.selected == 0
        } else {
            &&& 0 <= self.selected < self.options.len()
            &&& self.points == self.options[self.selected].points
            &&& self.dist == self.options[self.selected].dist
        }
    }
}

impl Default for RouteResult {
    fn default() -> (r: RouteResult)
        ensures
            r@ == RouteView::idle(),
    {
        let r = RouteResult {
            points: Vec::new(),
            dist: F32 { bits: 0 },
            status: RouteStatus::Idle,
            dest_label: None,
            options: Vec::new(),
            selected: 0,
        };
        proof {
            assert(r@ =~= RouteView::idle());
        }
        r
    }
}

impl RouteResult {
    /// Choose variant `i`; what is not there cannot be chosen.
    pub fn select(&mut self, i: usize)
        ensures
            final(self)@ == old(self)@.choosing(i as int),
    {
        let ghost before = self@;
        if i < self.options.len() {
            let points = copy_points(&self.options[i].points);
            let dist = self.options[i].dist;
            self.selected = i;
            self.points = points;
            self.dist = dist;
        }
        proof {
            assert(self@ =~= before.choosing(i as int));
        }
    }

    /// Drop the route.
    pub fn clear(&mut self)
        ensures
            final(self)@ == RouteView::idle(),
    {
        self.points = Vec::new();
        self.dist = F32 { bits: 0 };
        self.dest_label = None;
        self.options = Vec::new();
        self.selected = 0;
        self.status = RouteStatus::Idle;
        proof {
            assert(self@ =~= RouteView::idle());
        }
    }
}

/// What a route avoids, and whether its search is shown.
#[derive(Clone, Copy, Debug, PartialEq, Eq, Structural)]
pub struct RouteOpts {
    pub avoid_boss: bool,
    pub avoid_pmc: bool,
    pub avoid_scav: bool,
    pub visualize: bool,
}

/// Whether a list names a word, in large or small letters.
pub open spec fn names_word(list: Seq<char>, word: Seq<char>) -> bool {
    exists|i: int|
        0 <= i < pieces(list, ',').len() && ascii_lowered(trimmed(#[trigger] pieces(list, ',')[i]))
            == ascii_lowered(word)
}

fn list_names(list: &str, word: &str) -> (r: bool)
    ensures
        r == names_word(list@, word@),
{
    let parts = split_at_char(list, ',');
    let n: usize = parts.len();
    let mut i: usize = 0;
    while i < n
        invariant
            i <= n,
            n == parts@.len(),
            texts(parts@) == pieces(list@, ','),
            forall|j: int|
                0 <= j < i ==> ascii_lowered(trimmed(#[trigger] pieces(list@, ',')[j])) != ascii_lowered(
                    word@,
                ),
        decreases n - i,
    {
        proof {
            assert(texts(parts@)[i as int] == parts@[i as int]@);
            assert(texts(parts@).len() == n);
        }
        let t = trim(parts[i].as_str());
        if same_ignoring_ascii_case(t.as_str(), word) {
            return true;
        }
        i = i + 1;
    }
    proof {
        assert(texts(parts@).len() == n);
    }
    false
}

impl RouteOpts {
    /// The options to start with, as the environment has them: a list of what is avoided, and a switch
    /// for showing the search.
    pub fn from_env(avoid: Option<&str>, viz: &Option<String>) -> (r: RouteOpts)
        ensures
            r.avoid_boss == (avoid is Some && names_word(avoid->0@, "boss"@)),
            r.avoid_pmc == (avoid is Some && names_word(avoid->0@, "pmc"@)),
            r.avoid_scav == (avoid is Some && names_word(avoid->0@, "scav"@)),
            r.visualize == says(*viz, "1"@),
    {
        let visualize = crate::settings::is_set_to(viz, "1");
        match avoid {
            Some(s) => RouteOpts {
                avoid_boss: list_names(s, "boss"),
                avoid_pmc: list_names(s, "pmc"),
                avoid_scav: list_names(s, "scav"),
                visualize,
            },
            None => RouteOpts { avoid_boss: false, avoid_pmc: false, avoid_scav: false, visualize },
        }
    }
}

/// The bits of 45.0: how far a boss is avoided.
pub const AVOID_R_BOSS: u32 = 0x4234_0000;

/// The bits of 32.0: how far players' spawns are avoided.
pub const AVOID_R_PMC: u32 = 0x4200_0000;

/// The bits of 24.0: how far scavs' spawns are avoided.
pub const AVOID_R_SCAV: u32 = 0x41c0_0000;

/// The bits of 4.0: the weight of avoidance in a cautious route.
pub const AVOID_W_CAUTIOUS: u32 = 0x4080_0000;

/// The bits of 12.0: the weight of avoidance in a route with a wide berth.
pub const AVOID_W_WIDE: u32 = 0x4140_0000;

/// A spawn on the map.
#[derive(Clone, Copy, Debug, PartialEq, Eq, Structural)]
pub struct SpawnPoint {
    pub layer: PoiLayer,
    pub pos: V3,
}

/// A place to stay away from, and how far.
#[derive(Clone, Copy, Debug, PartialEq, Eq, Structural)]
pub struct Danger {
    pub pos: V3,
    pub radius: F32,
}

/// How far a spawn is avoided, where it is.
pub open spec fn danger_radius(o: RouteOpts, l: PoiLayer) -> Option<F32> {
    if l == PoiLayer::Boss && o.avoid_boss {
        Some(float(AVOID_R_BOSS))
    } else if l == PoiLayer::PmcSpawn && o.avoid_pmc {
        Some(float(AVOID_R_PMC))
    } else if l == PoiLayer::ScavSpawn && o.avoid_scav {
        Some(float(AVOID_R_SCAV))
    } else {
        None
    }
}

/// The places that the first `n` spawns give to stay away from.
pub open spec fn dangers(o: RouteOpts, spawns: Seq<SpawnPoint>, n: nat) -> Seq<Danger>
    decreases n,
{
    if n == 0 {
        seq![]
    } else {
        let rest = dangers(o, spawns, (n - 1) as nat);
        match danger_radius(o, spawns[n - 1].layer) {
            Some(radius) => rest.push(Danger { pos: spawns[n - 1].pos, radius }),
            None => rest,
        }
    }
}

pub(crate) fn find_dangers(o: RouteOpts, spawns: &Vec<SpawnPoint>) -> (r: Vec<Danger>)
    ensures
        r@ == dangers(o, spawns@, spawns@.len()),
{
    let mut r: Vec<Danger> = Vec::new();
    let n: usize = spawns.len();
    let mut i: usize = 0;
    while i < n
        invariant
            i <= n,
            n == spawns@.len(),
            r@ == dangers(o, spawns@, i as nat),
        decreases n - i,
    {
        let s = spawns[i];
        let radius: Option<F32> = match s.layer {
            PoiLayer::Boss => if o.avoid_boss {
                Some(F32 { bits: AVOID_R_BOSS })
            } else {
                None
            },
            PoiLayer::PmcSpawn => if o.avoid_pmc {
                Some(F32 { bits: AVOID_R_PMC })
            } else {
                None
            },
            PoiLayer::ScavSpawn => if o.avoid_scav {
                Some(F32 { bits: AVOID_R_SCAV })
            } else {
                None
            },
            _ => None,
        };
        if let Some(radius) = radius {
            r.push(Danger { pos: s.pos, radius });
        }
        i = i + 1;
    }
    r
}

/// What a job searches for.
#[derive(Clone, Copy, Debug, PartialEq, Eq, Structural)]
pub enum Leg {
    /// One destination.
    Single,
    /// The nearest of several.
    NearestOf,
    /// All, in the cheapest order.
    Chain,
    /// All, in the given order.
    Tour,
}

/// What a request searches for.
pub open spec fn leg_of(dests: nat, nearest_of: bool, optimize: bool) -> Leg {
    if dests == 1 {
        Leg::Single
    } else if nearest_of {
        Leg::NearestOf
    } else if optimize {
        Leg::Chain
    } else {
        Leg::Tour
    }
}

/// A search that is to be run in the background.
#[derive(Debug)]
pub struct RouteJob {
    pub start: V3,
    pub dests: Vec<V3>,
    pub labels: Vec<String>,
    pub leg: Leg,
    pub avoid: Vec<Danger>,
    /// Whether the search is recorded for showing.
    pub visualize: bool,
}

/// What a frame's requests lead to.
#[derive(Debug)]
pub enum Dispatch {
    /// Nothing: there is no request.
    Nothing,
    /// The running search is dropped.
    Cancel,
    /// There is no grid to search; a running search goes on.
    NoGrid,
    /// This search takes the place of the running one.
    Start(RouteJob),
}

/// Where a route starts: as requested, else at the placed pin, else at the camera, else at the
/// origin.
pub open spec fn start_of(requested: Option<V3>, pin: Option<V3>, camera: Option<V3>) -> V3 {
    match requested {
        Some(p) => p,
        None => match pin {
            Some(p) => p,
            None => match camera {
                Some(p) => p,
                None => V3 { x: float(0), y: float(0), z: float(0) },
            },
        },
    }
}

/// Whether a job is the one that a request asks for.
pub open spec fn job_for(
    j: RouteJob,
    req: RouteRequest,
    pin: Option<V3>,
    camera: Option<V3>,
    opts: RouteOpts,
    spawns: Seq<SpawnPoint>,
) -> bool {
    &&& j.start == start_of(req.start, pin, camera)
    &&& j.dests@ == req.dests@
    &&& texts(j.labels@) == texts(req.labels@)
    &&& j.leg == leg_of(req.dests@.len(), req.nearest_of, req.optimize_order)
    &&& j.avoid@ == dangers(opts, spawns, spawns.len())
    &&& j.visualize == (opts.visualize && req.dests@.len() == 1 && !req.nearest_of && !req.optimize_order)
}

/// The text that is shown where a map has no grid.
pub open spec fn no_grid_text() -> Seq<char> {
    "no route data for this map (nav is baked during the map build)"@
}

/// Answer the requests of a frame, of which the last one counts.
pub fn dispatch_route(
    requests: &Vec<RouteRequest>,
    grid: bool,
    pin: Option<V3>,
    camera: Option<V3>,
    opts: RouteOpts,
    spawns: &Vec<SpawnPoint>,
    result: &mut RouteResult,
) -> (r: Dispatch)
    ensures
        requests@.len() == 0 ==> r is Nothing && final(result)@ == old(result)@,
        requests@.len() > 0 && requests@.last().dests@.len() == 0 ==> r is Cancel && final(result)@
            == RouteView::idle(),
        requests@.len() > 0 && requests@.last().dests@.len() > 0 && !grid ==> r is NoGrid
            && final(result)@ == (RouteView { status: StatusView::Error(no_grid_text()), ..RouteView::idle() }),
        requests@.len() > 0 && requests@.last().dests@.len() > 0 && grid ==> (r matches Dispatch::Start(
            j,
        ) && job_for(j, requests@.last(), pin, camera, opts, spawns@)) && final(result)@ == (RouteView {
            status: StatusView::Pending,
            ..old(result)@
        }),
{
    let n: usize = requests.len();
    if n == 0 {
        return Dispatch::Nothing;
    }
    let req = &requests[n - 1];
    if req.dests.len() == 0 {
        result.clear();
        return Dispatch::Cancel;
    }
    if !grid {
        result.clear();
        result.status = RouteStatus::Error(
            "no route data for this map (nav is baked during the map build)".to_owned(),
        );
        return Dispatch::NoGrid;
    }
    let start: V3 = match req.start {
        Some(p) => p,
        None => match pin {
            Some(p) => p,
            None => match camera {
                Some(p) => p,
                None => V3 { x: F32 { bits: 0 }, y: F32 { bits: 0 }, z: F32 { bits: 0 } },
            },
        },
    };
    let single = req.dests.len() == 1;
    let leg = if single {
        Leg::Single
    } else if req.nearest_of {
        Leg::NearestOf
    } else if req.optimize_order {
        Leg::Chain
    } else {
        Leg::Tour
    };
    result.status = RouteStatus::Pending;
    let job = RouteJob {
        start,
        dests: copy_points(&req.dests),
        labels: copy_texts(&req.labels),
        leg,
        avoid: find_dangers(opts, spawns),
        visualize: opts.visualize && single && !req.nearest_of && !req.optimize_order,
    };
    Dispatch::Start(job)
}

/// Which variant of a route a search is for.
#[derive(Clone, Copy, Debug, PartialEq, Eq, Structural)]
pub enum Variant {
    Direct,
    Cautious,
    WideBerth,
}

impl Variant {
    /// The name of a variant.
    pub open spec fn name_text(self) -> Seq<char> {
        match self {
            Variant::Direct => "Direct"@,
            Variant::Cautious => "Cautious"@,
            Variant::WideBerth => "Wide berth"@,
        }
    }

    /// The name of a variant.
    pub fn name(self) -> (r: &'static str)
        ensures
            r@ == self.name_text(),
    {
        match self {
            Variant::Direct => "Direct",
            Variant::Cautious => "Cautious",
            Variant::WideBerth => "Wide berth",
        }
    }

    /// The weight with which dangers are avoided; none for the direct route.
    pub fn weight(self) -> (r: Option<F32>)
        ensures
            r == (match self {
                Variant::Direct => None,
                Variant::Cautious => Some(float(AVOID_W_CAUTIOUS)),
                Variant::WideBerth => Some(float(AVOID_W_WIDE)),
            }),
    {
        match self {
            Variant::Direct => None,
            Variant::Cautious => Some(F32 { bits: AVOID_W_CAUTIOUS }),
            Variant::WideBerth => Some(F32 { bits: AVOID_W_WIDE }),
        }
    }
}

impl RouteJob {
    /// The variants that are searched for: only the direct one where there is nothing to avoid.
    pub fn variants(&self) -> (r: Vec<Variant>)
        ensures
            r@ == (if self.avoid@.len() == 0 {
                seq![Variant::Direct]
            } else {
                seq![Variant::Direct, Variant::Cautious, Variant::WideBerth]
            }),
    {
        let mut r: Vec<Variant> = Vec::new();
        r.push(Variant::Direct);
        if self.avoid.len() > 0 {
            r.push(Variant::Cautious);
            r.push(Variant::WideBerth);
        }
        proof {
            assert(self.avoid@.len() == 0 ==> r@ =~= seq![Variant::Direct]);
            assert(self.avoid@.len() > 0 ==> r@ =~= seq![
                Variant::Direct,
                Variant::Cautious,
                Variant::WideBerth,
            ]);
        }
        r
    }

    /// The label of destination `i`.
    pub open spec fn label_text(self, i: int) -> Option<Seq<char>> {
        if 0 <= i < self.labels@.len() {
            Some(self.labels@[i]@)
        } else {
            None
        }
    }

    /// Which destination a route ends at: a walk to one destination there, a walk through all in
    /// their order at the last; a walk to the nearest or in the best order at `ends_at`, where the
    /// search says that it ended.
    pub open spec fn end_of_route(self, ends_at: int) -> int {
        match self.leg {
            Leg::Single => 0,
            Leg::NearestOf => ends_at,
            Leg::Chain => ends_at,
            Leg::Tour => self.dests@.len() - 1,
        }
    }

    /// The label of the route that a search found, given at which destination the search ended: that
    /// of the destination at which the route ends, none where the request gave it no label.
    pub fn found_label(&self, ends_at: usize) -> (r: Option<String>)
        ensures
            maybe_text(r) == self.label_text(self.end_of_route(ends_at as int)),
    {
        let i: usize = match self.leg {
            Leg::Single => 0,
            Leg::NearestOf => ends_at,
            Leg::Chain => ends_at,
            Leg::Tour => {
                if self.dests.len() == 0 {
                    return None;
                }
                self.dests.len() - 1
            },
        };
        if i < self.labels.len() {
            Some(self.labels[i].as_str().to_owned())
        } else {
            None
        }
    }
}

/// Every route of a request that labels its destinations has a label, that of one of them; a route of
/// a request without labels has none.
pub proof fn labels_are_echoed(job: RouteJob, ends_at: int)
    requires
        job.leg == Leg::NearestOf || job.leg == Leg::Chain ==> 0 <= ends_at < job.dests@.len(),
        job.dests@.len() > 0,
    ensures
        0 <= job.end_of_route(ends_at) < job.dests@.len(),
        job.labels@.len() >= job.dests@.len() ==> job.label_text(job.end_of_route(ends_at)) == Some(
            job.labels@[job.end_of_route(ends_at)]@,
        ),
        job.labels@.len() == 0 ==> job.label_text(job.end_of_route(ends_at)) is None,
{
}

/// Which of the first `n` destinations is cheapest to reach, given the length of the way to each
/// that can be reached; the first of those that are equally far.
pub open spec fn cheapest(dist: Seq<Option<F32>>, n: nat) -> Option<int>
    decreases n,
{
    if n == 0 {
        None
    } else {
        let best = cheapest(dist, (n - 1) as nat);
        match dist[n - 1] {
            Some(d) => if best is None || d.lt(dist[best->0]->0) {
                Some(n - 1)
            } else {
                best
            },
            None => best,
        }
    }
}

/// Which destination is cheapest to reach.
pub fn nearest_destination(dist: &Vec<Option<F32>>) -> (r: Option<usize>)
    ensures
        match r {
            Some(k) => cheapest(dist@, dist@.len()) == Some(k as int) && k < dist@.len() && dist@[k as int]
                is Some,
            None => cheapest(dist@, dist@.len()) is None,
        },
{
    let n: usize = dist.len();
    let mut best: Option<usize> = None;
    let mut i: usize = 0;
    while i < n
        invariant
            i <= n,
            n == dist@.len(),
            match best {
                Some(k) => cheapest(dist@, i as nat) == Some(k as int) && k < i && dist@[k as int] is Some,
                None => cheapest(dist@, i as nat) is None,
            },
        decreases n - i,
    {
        if let Some(d) = dist[i] {
            let better = match best {
                Some(k) => match dist[k] {
                    Some(b) => d.less(b),
                    None => true,
                },
                None => true,
            };
            if better {
                best = Some(i);
            }
        }
        i = i + 1;
    }
    best
}

/// The cheapest destination can be reached, and none that can be is nearer, where all lengths are
/// numbers. There is one exactly where some destination can be reached.
pub proof fn cheapest_is_least(dist: Seq<Option<F32>>, n: nat)
    requires
        n <= dist.len(),
        forall|j: int| 0 <= j < n && (#[trigger] dist[j]) is Some ==> !dist[j]->0.nan(),
    ensures
        cheapest(dist, n) is None ==> forall|j: int| 0 <= j < n ==> (#[trigger] dist[j]) is None,
        cheapest(dist, n) is Some ==> 0 <= cheapest(dist, n)->0 < n && dist[cheapest(dist, n)->0] is Some
            && forall|j: int|
            0 <= j < n && (#[trigger] dist[j]) is Some ==> dist[cheapest(dist, n)->0]->0.le(dist[j]->0),
    decreases n,
{
    if n > 0 {
        cheapest_is_least(dist, (n - 1) as nat);
    }
}

/// A route that a search found, simplified.
#[derive(Debug)]
pub struct RouteFound {
    pub points: Vec<V3>,
    pub dist: F32,
    pub label: Option<String>,
}

/// The variants that have been found so far.
#[derive(Debug)]
pub struct RouteBuild {
    pub options: Vec<RouteOption>,
    pub label: Option<String>,
}

/// The bits of 1: how many metres two variants must differ by to count as two.
pub const SAME_LENGTH: u32 = 0x3f80_0000;

/// Whether a variant is as long as an earlier one: one of the differences is below a metre.
pub open spec fn as_long(differences: Seq<F32>) -> bool {
    exists|i: int| 0 <= i < differences.len() && (#[trigger] differences[i]).lt(float(SAME_LENGTH))
}

fn is_as_long(differences: &Vec<F32>) -> (r: bool)
    ensures
        r == as_long(differences@),
{
    let n: usize = differences.len();
    let mut i: usize = 0;
    while i < n
        invariant
            i <= n,
            n == differences@.len(),
            forall|j: int| 0 <= j < i ==> !(#[trigger] differences@[j]).lt(float(SAME_LENGTH)),
        decreases n - i,
    {
        if differences[i].less(F32 { bits: SAME_LENGTH }) {
            return true;
        }
        i = i + 1;
    }
    false
}

impl RouteBuild {
    /// Nothing found yet.
    pub fn new() -> (r: RouteBuild)
        ensures
            option_views(r.options@) == Seq::<OptionView>::empty(),
            r.label is None,
    {
        let r = RouteBuild { options: Vec::new(), label: None };
        proof {
            assert(option_views(r.options@) =~= Seq::<OptionView>::empty());
        }
        r
    }

    /// Take in what the search for a variant found. It is dropped where nothing was found, and where
    /// it is as long as an earlier variant to within a metre (`differences` says by how much it is
    /// longer or shorter than each). The route goes by the first label that a variant that was kept
    /// has.
    pub fn push(&mut self, variant: Variant, found: Option<RouteFound>, differences: &Vec<F32>)
        ensures
            found is None || as_long(differences@) ==> *final(self) == *old(self),
            found is Some && !as_long(differences@) ==> option_views(final(self).options@) == option_views(
                old(self).options@,
            ).push(
                OptionView {
                    name: variant.name_text(),
                    points: found->0.points@,
                    dist: found->0.dist,
                },
            ) && maybe_text(final(self).label) == (if old(self).label is Some {
                maybe_text(old(self).label)
            } else {
                maybe_text(found->0.label)
            }),
    {
        if let Some(f) = found {
            if !is_as_long(differences) {
                let ghost before = self.options@;
                self.options.push(
                    RouteOption { name: variant.name().to_owned(), points: f.points, dist: f.dist },
                );
                proof {
                    assert(option_views(self.options@) =~= option_views(before).push(
                        OptionView {
                            name: variant.name_text(),
                            points: f.points@,
                            dist: f.dist,
                        },
                    ));
                }
                if self.label.is_none() {
                    self.label = f.label;
                }
            }
        }
    }
}

/// A node of a recorded search, and how far it is from the start.
#[derive(Clone, Copy, Debug, PartialEq, Eq, Structural)]
pub struct TraceNode {
    pub pos: V3,
    pub g: F32,
}

/// The search that is being shown.
#[derive(Debug)]
pub struct NavTrace {
    pub nodes: Vec<TraceNode>,
    pub max_g: F32,
    pub start_t: F32,
    pub playing: bool,
}

/// The bits of 2: for how many seconds a search is shown.
pub const TRACE_SECS: u32 = 0x4000_0000;

impl NavTrace {
    /// Whether there is anything to show: the search is playing, and it has gone somewhere.
    pub fn is_shown(&self) -> (r: bool)
        ensures
            r == (self.playing && self.nodes@.len() >= 2 && !self.max_g.le(float(0))),
    {
        self.playing && self.nodes.len() >= 2 && !self.max_g.less_or_equal(F32 { bits: 0 })
    }

    /// A search that has been shown for long enough stops.
    pub fn shown_for(&mut self, seconds: F32)
        ensures
            final(self).playing == (old(self).playing && !float(TRACE_SECS).lt(seconds)),
            final(self).nodes == old(self).nodes,
            final(self).max_g == old(self).max_g,
            final(self).start_t == old(self).start_t,
    {
        if (F32 { bits: TRACE_SECS }).less(seconds) {
            self.playing = false;
        }
    }
}

/// The largest distance among the first `n` nodes, at least 0.
pub open spec fn farthest(nodes: Seq<TraceNode>, n: nat) -> F32
    decreases n,
{
    if n == 0 {
        float(0)
    } else {
        farthest(nodes, (n - 1) as nat).larger(nodes[n - 1].g)
    }
}

/// What a finished search brings: variants, the destination's label and the recorded nodes; or why
/// there are none.
#[derive(Debug)]
pub enum RouteOutcome {
    Found { options: Vec<RouteOption>, label: Option<String>, nodes: Vec<TraceNode> },
    Failed(String),
}

/// Finish a search: it has failed where no variant was found.
pub fn finish_route(build: RouteBuild, nodes: Vec<TraceNode>) -> (r: RouteOutcome)
    ensures
        build.options@.len() == 0 ==> (r matches RouteOutcome::Failed(e) && e@ == "no walkable path found"@),
        build.options@.len() > 0 ==> r == (RouteOutcome::Found {
            options: build.options,
            label: build.label,
            nodes,
        }),
{
    if build.options.len() == 0 {
        RouteOutcome::Failed("no walkable path found".to_owned())
    } else {
        RouteOutcome::Found { options: build.options, label: build.label, nodes }
    }
}

/// Whether an outcome is one that a search can have: it fails where it finds nothing.
pub open spec fn proper(o: RouteOutcome) -> bool {
    match o {
        RouteOutcome::Found { options, label, nodes } => options@.len() > 0,
        RouteOutcome::Failed(e) => true,
    }
}

/// Show what a finished search brought at time `now`: the first variant is chosen, and a recorded
/// search of two nodes or more is played.
pub fn poll_route(outcome: RouteOutcome, now: F32, result: &mut RouteResult, trace: &mut NavTrace)
    requires
        proper(outcome),
    ensures
        match outcome {
            RouteOutcome::Found { options, label, nodes } => {
                &&& final(result)@ == (RouteView {
                    options: option_views(options@),
                    dest_label: maybe_text(label),
                    status: StatusView::Ready,
                    ..old(result)@
                }).choosing(0)
                &&& final(trace).playing == (nodes@.len() >= 2)
                &&& nodes@.len() >= 2 ==> final(trace).nodes == nodes && final(trace).max_g == farthest(
                    nodes@,
                    nodes@.len(),
                ) && final(trace).start_t == now
                &&& nodes@.len() < 2 ==> final(trace).nodes@.len() == 0
            },
            RouteOutcome::Failed(e) => {
                &&& final(result)@ == (RouteView { status: StatusView::Error(e@), ..RouteView::idle() })
                &&& !final(trace).playing
                &&& final(trace).nodes@.len() == 0
            },
        },
        final(result)@.mirrors(),
{
    match outcome {
        RouteOutcome::Found { options, label, nodes } => {
            result.options = options;
            result.dest_label = label;
            result.status = RouteStatus::Ready;
            result.select(0);
            let n: usize = nodes.len();
            if n >= 2 {
                let mut max_g: F32 = F32 { bits: 0 };
                let mut i: usize = 0;
                while i < n
                    invariant
                        i <= n,
                        n == nodes@.len(),
                        max_g == farthest(nodes@, i as nat),
                    decreases n - i,
                {
                    max_g = max_g.max(nodes[i].g);
                    i = i + 1;
                }
                trace.max_g = max_g;
                trace.nodes = nodes;
                trace.start_t = now;
                trace.playing = true;
            } else {
                trace.playing = false;
                trace.nodes = Vec::new();
            }
        },
        RouteOutcome::Failed(e) => {
            result.clear();
            result.status = RouteStatus::Error(e);
            trace.playing = false;
            trace.nodes = Vec::new();
        },
    }
}

/// A pin that was placed, moved or removed makes a shown or running route stale: it is dropped, and
/// so is the running search. Returns whether the search is dropped.
pub fn clear_route_on_start_move(changed: bool, added: bool, running: bool, result: &mut RouteResult) -> (drop: bool)
    ensures
        drop == (changed && !added && (running || !(old(result)@.status is Idle))),
        final(result)@ == (if drop {
            RouteView::idle()
        } else {
            old(result)@
        }),
{
    if !changed || added {
        return false;
    }
    let idle = match &result.status {
        RouteStatus::Idle => true,
        _ => false,
    };
    if !idle || running {
        result.clear();
        true
    } else {
        false
    }
}

/// Which variants are drawn dimly: all but the chosen one, where they have a line.
pub open spec fn drawn_dimly(r: RouteView, i: int) -> bool {
    0 <= i < r.options.len() && i != r.selected && r.options[i].points.len() >= 2
}

/// Whether variant `i` is drawn dimly.
pub fn is_drawn_dimly(r: &RouteResult, i: usize) -> (d: bool)
    ensures
        d == drawn_dimly(r@, i as int),
{
    i < r.options.len() && i != r.selected && r.options[i].points.len() >= 2
}

/// Which variant is drawn as the route: the chosen one, where it has a line.
pub open spec fn drawn(r: RouteView) -> Option<int> {
    if 0 <= r.selected < r.options.len() && r.options[r.selected].points.len() >= 2 {
        Some(r.selected)
    } else {
        None
    }
}

/// Which variant is drawn as the route.
pub fn drawn_variant(r: &RouteResult) -> (d: Option<usize>)
    ensures
        match d {
            Some(i) => drawn(r@) == Some(i as int),
            None => drawn(r@) is None,
        },
{
    if r.selected < r.options.len() && r.options[r.selected].points.len() >= 2 {
        Some(r.selected)
    } else {
        None
    }
}

/// A variant is drawn in one way at most: as the route, or dimly.
pub proof fn a_variant_is_drawn_once(r: RouteView, i: int)
    ensures
        drawn_dimly(r, i) ==> drawn(r) != Some(i),
{
}

/// Whether routing is available.
#[derive(Clone, Copy, Debug, PartialEq, Eq, Structural)]
pub enum ServerStatus {
    Stopped,
    Starting,
    Running,
}

/// What the user asks of routing.
#[derive(Clone, Copy, Debug, PartialEq, Eq, Structural)]
pub enum ServerCmd {
    Start,
    Stop,
}

/// The state of routing.
#[derive(Clone, Copy, Debug, PartialEq, Eq, Structural)]
pub struct PathfindServer {
    pub status: ServerStatus,
}

impl PathfindServer {
    /// There is no process to stop: routing runs in this one.
    pub fn stop_owned_child(&mut self)
        ensures
            *final(self) == *old(self),
    {
    }

    /// The status after an attempt to load the map's grid, which may not have one.
    pub fn loaded(&mut self, grid: bool)
        ensures
            final(self).status == (if grid {
                ServerStatus::Running
            } else {
                ServerStatus::Stopped
            }),
    {
        self.status = if grid {
            ServerStatus::Running
        } else {
            ServerStatus::Stopped
        };
    }
}

/// What is done to the grid.
#[derive(Clone, Copy, Debug, PartialEq, Eq, Structural)]
pub enum NavAction {
    Load,
    Unload,
}

/// What a command does to the grid: nothing can be loaded without a pack.
pub open spec fn command_actions(c: ServerCmd, pack: bool) -> Seq<NavAction> {
    match c {
        ServerCmd::Start => if pack {
            seq![NavAction::Load]
        } else {
            seq![]
        },
        ServerCmd::Stop => seq![NavAction::Unload],
    }
}

/// What the first `n` commands do to the grid.
pub open spec fn commands_actions(cmds: Seq<ServerCmd>, pack: bool, n: nat) -> Seq<NavAction>
    decreases n,
{
    if n == 0 {
        seq![]
    } else {
        commands_actions(cmds, pack, (n - 1) as nat) + command_actions(cmds[n - 1], pack)
    }
}

/// What is done to the grid in a frame: it is loaded once for each map, as soon as there is a pack,
/// and then as the commands say. `seen` is the map whose grid was loaded.
pub fn manage_nav(seen: &mut Option<u64>, epoch: u64, pack: bool, cmds: &Vec<ServerCmd>) -> (r: Vec<NavAction>)
    ensures
        *final(seen) == (if pack {
            Some(epoch)
        } else {
            *old(seen)
        }),
        r@ == (if pack && *old(seen) != Some(epoch) {
            seq![NavAction::Load]
        } else {
            seq![]
        }) + commands_actions(cmds@, pack, cmds@.len()),
{
    let mut r: Vec<NavAction> = Vec::new();
    let stale = match *seen {
        Some(e) => e != epoch,
        None => true,
    };
    if stale && pack {
        *seen = Some(epoch);
        r.push(NavAction::Load);
    }
    let ghost first = r@;
    let n: usize = cmds.len();
    let mut i: usize = 0;
    proof {
        assert(first + commands_actions(cmds@, pack, 0) =~= first);
    }
    while i < n
        invariant
            i <= n,
            n == cmds@.len(),
            r@ == first + commands_actions(cmds@, pack, i as nat),
        decreases n - i,
    {
        match cmds[i] {
            ServerCmd::Start => {
                if pack {
                    r.push(NavAction::Load);
                }
            },
            ServerCmd::Stop => {
                r.push(NavAction::Unload);
            },
        }
        proof {
            assert(r@ =~= first + commands_actions(cmds@, pack, (i + 1) as nat));
        }
        i = i + 1;
    }
    proof {
        assert(stale && pack ==> first =~= seq![NavAction::Load]);
        assert(!(stale && pack) ==> first =~= seq![]);
    }
    r
}

/// Drop all that belongs to the previous map: the route, the shown search, the pin and the wish to
/// place one.
pub fn teardown_nav(
    result: &mut RouteResult,
    trace: &mut NavTrace,
    pin: &mut Option<V3>,
    placing: &mut bool,
)
    ensures
        final(result)@ == RouteView::idle(),
        final(trace).nodes@.len() == 0,
        !final(trace).playing,
        *final(pin) == None::<V3>,
        !*final(placing),
{
    result.clear();
    trace.nodes = Vec::new();
    trace.playing = false;
    *pin = None;
    *placing = false;
}

/// The frames after which a scripted route is requested.
pub const DEBUG_ROUTE_FRAME: u32 = 20;

/// The point that a piece of a scripted route stands for, given the numbers in it: just three.
pub fn scripted_point(numbers: &Vec<Option<F32>>) -> (r: Option<V3>)
    ensures
        r == (if numbers_of(numbers@).len() == 3 {
            Some(
                V3 {
                    x: numbers_of(numbers@)[0],
                    y: numbers_of(numbers@)[1],
                    z: numbers_of(numbers@)[2],
                },
            )
        } else {
            None
        }),
{
    let mut found: Vec<F32> = Vec::new();
    let n: usize = numbers.len();
    let mut i: usize = 0;
    while i < n
        invariant
            i <= n,
            n == numbers@.len(),
            found@ == numbers_of(numbers@.take(i as int)),
        decreases n - i,
    {
        proof {
            assert(numbers@.take(i + 1).drop_last() =~= numbers@.take(i as int));
        }
        if let Some(f) = numbers[i] {
            found.push(f);
        }
        i = i + 1;
    }
    proof {
        assert(numbers@.take(n as int) =~= numbers@);
    }
    if found.len() == 3 {
        Some(V3 { x: found[0], y: found[1], z: found[2] })
    } else {
        None
    }
}

/// Whether a scripted route is requested in this frame: once only, when enough frames have passed.
pub fn debug_route_due(frame: &mut u32, done: &mut bool) -> (due: bool)
    requires
        *old(done) || *old(frame) < u32::MAX,
    ensures
        *old(done) ==> !due && *final(done) && *final(frame) == *old(frame),
        !*old(done) ==> *final(frame) == *old(frame) + 1 && due == (*final(frame) >= DEBUG_ROUTE_FRAME)
            && *final(done) == due,
{
    if *done {
        return false;
    }
    *frame = *frame + 1;
    if *frame < DEBUG_ROUTE_FRAME {
        return false;
    }
    *done = true;
    true
}

/// The request for a scripted route: from the first point to the others; none for fewer than two
/// points. With more than one destination their order may be chosen.
pub fn scripted_route(points: &Vec<V3>) -> (r: Option<RouteRequest>)
    ensures
        points@.len() < 2 ==> r is None,
        points@.len() >= 2 ==> (r matches Some(q) && q.start == Some(points@[0]) && q.dests@
            == points@.skip(1) && q.optimize_order == (points@.len() > 2) && !q.nearest_of
            && q.labels@.len() == 0),
{
    let n: usize = points.len();
    if n < 2 {
        return None;
    }
    let mut dests: Vec<V3> = Vec::new();
    let mut i: usize = 1;
    while i < n
        invariant
            1 <= i <= n,
            n == points@.len(),
            dests@ == points@.subrange(1, i as int),
        decreases n - i,
    {
        dests.push(points[i]);
        proof {
            assert(dests@ =~= points@.subrange(1, i + 1));
        }
        i = i + 1;
    }
    proof {
        assert(dests@ =~= points@.skip(1));
    }
    Some(
        RouteRequest {
            start: Some(points[0]),
            dests,
            optimize_order: n > 2,
            nearest_of: false,
            labels: Vec::new(),
        },
    )
}

/// Choosing a variant keeps the line and the length those of the chosen one.
pub proof fn choosing_keeps_mirror(r: RouteView, i: int)
    requires
        r.mirrors(),
    ensures
        r.choosing(i).mirrors(),
        r.choosing(i).options == r.options,
        r.choosing(i).status == r.status,
{
}

/// Without a route nothing is drawn, and the mirror holds.
pub proof fn idle_mirrors()
    ensures
        RouteView::idle().mirrors(),
        forall|i: int| !#[trigger] drawn_dimly(RouteView::idle(), i),
{
}

/// Every place to stay away from is that of a spawn that is avoided, with the distance of its kind;
/// and every spawn that is avoided gives such a place.
pub proof fn dangers_are_exact(o: RouteOpts, spawns: Seq<SpawnPoint>, n: nat, d: Danger)
    requires
        n <= spawns.len(),
    ensures
        dangers(o, spawns, n).contains(d) <==> exists|j: int|
            0 <= j < n && (#[trigger] spawns[j]).pos == d.pos && danger_radius(o, spawns[j].layer) == Some(
                d.radius,
            ),
    decreases n,
{
    if n > 0 {
        dangers_are_exact(o, spawns, (n - 1) as nat, d);
        let rest = dangers(o, spawns, (n - 1) as nat);
        let last = spawns[n - 1];
        match danger_radius(o, last.layer) {
            Some(radius) => {
                let all = rest.push(Danger { pos: last.pos, radius });
                if rest.contains(d) {
                    let k = choose|k: int| 0 <= k < rest.len() && rest[k] == d;
                    assert(all[k] == d);
                }
                if all.contains(d) && !rest.contains(d) {
                    let k = choose|k: int| 0 <= k < all.len() && all[k] == d;
                    assert(k == rest.len());
                    assert(spawns[n - 1].pos == d.pos);
                }
                if last.pos == d.pos && radius == d.radius {
                    assert(all[rest.len() as int] == d);
                }
            },
            None => {},
        }
    }
}

} // verus!
