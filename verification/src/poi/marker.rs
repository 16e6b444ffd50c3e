//! Markers and walls, and the markers that come from the community's data.
use vstd::prelude::*;
use crate::compose::{contains_char, is_blank, join3, maybe_text};
use crate::f32bits::{float, F32};
use crate::gpu::materials::V3;
use crate::poi::card::{
    extract_dev_info, has_keycard, hazard_info, lock_info, loose_info, node_info, stationary_info, switch_info,
    transit_info, MarkerInfo,
};
use crate::poi::card::{
    any_card, extract_card, hazard_card, lock_card, loose_card, node_card, plain_card, switch_card, transit_card, Card,
};
use crate::poi::layer::{Color, MarkerValue, PoiLayer};
use crate::poi::records::{
    ExtractDev, Hazard, Key, Lock, Loose, Node, Price, Stationary, Switch, Transit, Word,
};
use crate::poi::records::append_words;
use crate::poi::records::{titles, Titled};
use crate::poi::layer::holds;
use crate::text::{pieces, pieces_of_joined, pieces_of_plain, same, split_at_char};

verus! {

/// The task that something on the map belongs to.
#[derive(Debug)]
pub struct QuestMarkerTask(pub String);

/// Who may use an extract.
#[derive(Debug)]
pub struct ExtractFaction(pub String);

/// A colour of a marker that is not the one of its layer.
#[derive(Clone, Copy, Debug, PartialEq, Eq, Structural)]
pub enum Tint {
    Scav,
    Shared,
    Secret,
    Keycard,
}

/// A marker on the map.
#[derive(Debug)]
pub struct Marker {
    pub layer: PoiLayer,
    pub pos: V3,
    pub info: MarkerInfo,
    pub tint: Option<Tint>,
    pub faction: Option<ExtractFaction>,
    pub value: Option<MarkerValue>,
    /// The item whose icon the card shows.
    pub icon: Option<String>,
    /// Whether the marked thing is off in the scene.
    pub inactive: bool,
    pub task: Option<QuestMarkerTask>,
}

/// A marker, as a value to speak of.
#[verifier::ext_equal]
pub struct Mark {
    pub layer: PoiLayer,
    pub pos: V3,
    pub card: Card,
    pub tint: Option<Tint>,
    pub faction: Option<Seq<char>>,
    pub value: Option<i64>,
    pub icon: Option<Seq<char>>,
    pub inactive: bool,
    pub task: Option<Seq<char>>,
}

impl View for Marker {
    type V = Mark;

    open spec fn view(&self) -> Mark {
        Mark {
            layer: self.layer,
            pos: self.pos,
            card: self.info@,
            tint: self.tint,
            faction: match self.faction {
                Some(f) => Some(f.0@),
                None => None,
            },
            value: match self.value {
                Some(v) => Some(v.0),
                None => None,
            },
            icon: maybe_text(self.icon),
            inactive: self.inactive,
            task: match self.task {
                Some(t) => Some(t.0@),
                None => None,
            },
        }
    }
}

/// A translucent wall around a zone.
#[derive(Debug)]
pub struct Wall {
    pub layer: PoiLayer,
    pub outline: Vec<V3>,
    pub color: Color,
    pub active: bool,
    pub task: Option<QuestMarkerTask>,
}

/// A wall, as a value to speak of.
#[verifier::ext_equal]
pub struct WallMark {
    pub layer: PoiLayer,
    pub outline: Seq<V3>,
    pub color: Color,
    pub active: bool,
    pub task: Option<Seq<char>>,
}

impl View for Wall {
    type V = WallMark;

    open spec fn view(&self) -> WallMark {
        WallMark {
            layer: self.layer,
            outline: self.outline@,
            color: self.color,
            active: self.active,
            task: match self.task {
                Some(t) => Some(t.0@),
                None => None,
            },
        }
    }
}

/// What a list of markers stands for.
pub open spec fn marks(v: Seq<Marker>) -> Seq<Mark> {
    Seq::new(v.len(), |i: int| v[i]@)
}

/// What a list of walls stands for.
pub open spec fn wall_marks(v: Seq<Wall>) -> Seq<WallMark> {
    Seq::new(v.len(), |i: int| v[i]@)
}

/// A marker with nothing but its card.
pub open spec fn mark(layer: PoiLayer, pos: V3, card: Card) -> Mark {
    Mark {
        layer,
        pos,
        card,
        tint: None,
        faction: None,
        value: None,
        icon: None,
        inactive: false,
        task: None,
    }
}

pub(crate) fn marker(layer: PoiLayer, pos: V3, info: MarkerInfo) -> (r: Marker)
    ensures
        r@ == mark(layer, pos, info@),
        r.info == info,
{
    Marker {
        layer,
        pos,
        info,
        tint: None,
        faction: None,
        value: None,
        icon: None,
        inactive: false,
        task: None,
    }
}

pub(crate) fn add_marker(out: &mut Vec<Marker>, m: Marker)
    ensures
        marks(final(out)@) == marks(old(out)@).push(m@),
{
    let ghost before = out@;
    out.push(m);
    proof {
        assert(marks(out@) =~= marks(before).push(m@));
    }
}

pub(crate) fn add_wall(out: &mut Vec<Wall>, w: Wall)
    ensures
        wall_marks(final(out)@) == wall_marks(old(out)@).push(w@),
{
    let ghost before = out@;
    out.push(w);
    proof {
        assert(wall_marks(out@) =~= wall_marks(before).push(w@));
    }
}

/// A copy of a list of points.
pub fn copy_points(v: &Vec<V3>) -> (r: Vec<V3>)
    ensures
        r@ == v@,
{
    let mut r: Vec<V3> = Vec::new();
    let n: usize = v.len();
    let mut i: usize = 0;
    while i < n
        invariant
            i <= n,
            n == v@.len(),
            r@ == v@.take(i as int),
        decreases n - i,
    {
        r.push(v[i]);
        proof {
            assert(r@ =~= v@.take(i + 1));
        }
        i = i + 1;
    }
    proof {
        assert(v@.take(n as int) =~= v@);
    }
    r
}

/// The bits of 9: the square of the three metres within which extracts of one name are one.
pub const SAME_EXTRACT_2: u32 = 0x4110_0000;

/// The bits of 6.25: the square of the two and a half metres within which a loose item is that of a
/// typed loot point.
pub const SAME_LOOT_2: u32 = 0x40c8_0000;

/// Whether the place `j` of a list of distances is less than `reach` away.
pub open spec fn within(dist: Seq<F32>, j: int, reach: u32) -> bool {
    0 <= j < dist.len() && dist[j].lt(float(reach))
}

pub(crate) fn is_within(dist: &Vec<F32>, j: usize, reach: u32) -> (r: bool)
    ensures
        r == within(dist@, j as int, reach),
{
    j < dist.len() && dist[j].less(F32 { bits: reach })
}

/// Whether a typed loot point stands for a loose item: one is close to it.
pub open spec fn has_twin(lo: Loose) -> bool {
    exists|j: int| #[trigger] within(lo.typed_dist2@, j, SAME_LOOT_2)
}

fn find_twin(lo: &Loose) -> (r: bool)
    ensures
        r == has_twin(*lo),
{
    let n: usize = lo.typed_dist2.len();
    let mut i: usize = 0;
    while i < n
        invariant
            i <= n,
            n == lo.typed_dist2@.len(),
            forall|j: int| 0 <= j < i ==> !#[trigger] within(lo.typed_dist2@, j, SAME_LOOT_2),
        decreases n - i,
    {
        if is_within(&lo.typed_dist2, i, SAME_LOOT_2) {
            return true;
        }
        i = i + 1;
    }
    false
}

/// The markers of spawns.
pub open spec fn node_marks(l: PoiLayer, v: Seq<Node>) -> Seq<Mark> {
    Seq::new(v.len(), |i: int| mark(l, v[i].pos, node_card(l, v[i])))
}

/// Mark spawns.
pub fn mark_nodes(l: PoiLayer, v: &Vec<Node>, out: &mut Vec<Marker>)
    ensures
        marks(final(out)@) == marks(old(out)@) + node_marks(l, v@),
{
    let ghost before = marks(out@);
    let n: usize = v.len();
    let mut i: usize = 0;
    proof {
        assert(before + node_marks(l, v@).take(0) =~= before);
    }
    while i < n
        invariant
            i <= n,
            n == v@.len(),
            marks(out@) == before + node_marks(l, v@).take(i as int),
        decreases n - i,
    {
        let m = marker(l, v[i].pos, node_info(l, &v[i]));
        add_marker(out, m);
        proof {
            assert(before + node_marks(l, v@).take(i + 1) =~= (before + node_marks(l, v@).take(
                i as int,
            )).push(m@));
        }
        i = i + 1;
    }
    proof {
        assert(node_marks(l, v@).take(n as int) =~= node_marks(l, v@));
    }
}

/// The markers of switches.
pub open spec fn switch_marks(v: Seq<Switch>) -> Seq<Mark> {
    Seq::new(v.len(), |i: int| mark(PoiLayer::Switch, v[i].pos, switch_card(v[i])))
}

/// Mark switches.
pub fn mark_switches(v: &Vec<Switch>, out: &mut Vec<Marker>)
    ensures
        marks(final(out)@) == marks(old(out)@) + switch_marks(v@),
{
    let ghost before = marks(out@);
    let n: usize = v.len();
    let mut i: usize = 0;
    proof {
        assert(before + switch_marks(v@).take(0) =~= before);
    }
    while i < n
        invariant
            i <= n,
            n == v@.len(),
            marks(out@) == before + switch_marks(v@).take(i as int),
        decreases n - i,
    {
        let m = marker(PoiLayer::Switch, v[i].pos, switch_info(&v[i]));
        add_marker(out, m);
        proof {
            assert(before + switch_marks(v@).take(i + 1) =~= (before + switch_marks(v@).take(
                i as int,
            )).push(m@));
        }
        i = i + 1;
    }
    proof {
        assert(switch_marks(v@).take(n as int) =~= switch_marks(v@));
    }
}

/// The markers of ways to other maps.
pub open spec fn transit_marks(v: Seq<Transit>) -> Seq<Mark> {
    Seq::new(v.len(), |i: int| mark(PoiLayer::Transit, v[i].pos, transit_card(v[i])))
}

/// Mark ways to other maps.
pub fn mark_transits(v: &Vec<Transit>, out: &mut Vec<Marker>)
    ensures
        marks(final(out)@) == marks(old(out)@) + transit_marks(v@),
{
    let ghost before = marks(out@);
    let n: usize = v.len();
    let mut i: usize = 0;
    proof {
        assert(before + transit_marks(v@).take(0) =~= before);
    }
    while i < n
        invariant
            i <= n,
            n == v@.len(),
            marks(out@) == before + transit_marks(v@).take(i as int),
        decreases n - i,
    {
        let m = marker(PoiLayer::Transit, v[i].pos, transit_info(&v[i]));
        add_marker(out, m);
        proof {
            assert(before + transit_marks(v@).take(i + 1) =~= (before + transit_marks(v@).take(
                i as int,
            )).push(m@));
        }
        i = i + 1;
    }
    proof {
        assert(transit_marks(v@).take(n as int) =~= transit_marks(v@));
    }
}

/// The markers of mounted weapons.
pub open spec fn stationary_marks(v: Seq<Stationary>) -> Seq<Mark> {
    Seq::new(
        v.len(),
        |i: int|
            mark(
                PoiLayer::Stationary,
                v[i].pos,
                plain_card(v[i].name@, "Stationary weapon"@, PoiLayer::Stationary),
            ),
    )
}

/// Mark mounted weapons.
pub fn mark_stationary(v: &Vec<Stationary>, out: &mut Vec<Marker>)
    ensures
        marks(final(out)@) == marks(old(out)@) + stationary_marks(v@),
{
    let ghost before = marks(out@);
    let n: usize = v.len();
    let mut i: usize = 0;
    proof {
        assert(before + stationary_marks(v@).take(0) =~= before);
    }
    while i < n
        invariant
            i <= n,
            n == v@.len(),
            marks(out@) == before + stationary_marks(v@).take(i as int),
        decreases n - i,
    {
        let m = marker(PoiLayer::Stationary, v[i].pos, stationary_info(&v[i]));
        add_marker(out, m);
        proof {
            assert(before + stationary_marks(v@).take(i + 1) =~= (before + stationary_marks(v@).take(
                i as int,
            )).push(m@));
        }
        i = i + 1;
    }
    proof {
        assert(stationary_marks(v@).take(n as int) =~= stationary_marks(v@));
    }
}

/// The name of the first key that has one.
pub open spec fn first_named(keys: Seq<Key>) -> Option<Seq<char>>
    decreases keys.len(),
{
    if keys.len() == 0 {
        None
    } else if keys[0].n@.len() > 0 {
        Some(keys[0].n@)
    } else {
        first_named(keys.drop_first())
    }
}

/// The name of the first key that has one.
pub fn first_named_key(keys: &Vec<Key>) -> (r: Option<String>)
    ensures
        maybe_text(r) == first_named(keys@),
{
    let n: usize = keys.len();
    let mut i: usize = 0;
    proof {
        assert(keys@.skip(0) =~= keys@);
    }
    while i < n
        invariant
            i <= n,
            n == keys@.len(),
            first_named(keys@) == first_named(keys@.skip(i as int)),
        decreases n - i,
    {
        proof {
            assert(keys@.skip(i as int)[0] == keys@[i as int]);
            assert(keys@.skip(i as int).drop_first() =~= keys@.skip(i + 1));
        }
        if !is_blank(keys[i].n.as_str()) {
            return Some(keys[i].n.as_str().to_owned());
        }
        i = i + 1;
    }
    None
}

/// The markers of locks: violet where a keycard opens one, with the icon of the first named key.
pub open spec fn lock_marks(v: Seq<Lock>) -> Seq<Mark> {
    Seq::new(
        v.len(),
        |i: int|
            Mark {
                tint: if any_card(v[i].keys@) {
                    Some(Tint::Keycard)
                } else {
                    None
                },
                icon: first_named(v[i].keys@),
                ..mark(PoiLayer::Lock, v[i].pos, lock_card(v[i]))
            },
    )
}

/// Mark locks.
pub fn mark_locks(v: &Vec<Lock>, out: &mut Vec<Marker>)
    ensures
        marks(final(out)@) == marks(old(out)@) + lock_marks(v@),
{
    let ghost before = marks(out@);
    let n: usize = v.len();
    let mut i: usize = 0;
    proof {
        assert(before + lock_marks(v@).take(0) =~= before);
    }
    while i < n
        invariant
            i <= n,
            n == v@.len(),
            marks(out@) == before + lock_marks(v@).take(i as int),
        decreases n - i,
    {
        let mut m = marker(PoiLayer::Lock, v[i].pos, lock_info(&v[i]));
        if has_keycard(&v[i].keys) {
            m.tint = Some(Tint::Keycard);
        }
        m.icon = first_named_key(&v[i].keys);
        add_marker(out, m);
        proof {
            assert(m@ =~= lock_marks(v@)[i as int]);
            assert(before + lock_marks(v@).take(i + 1) =~= (before + lock_marks(v@).take(
                i as int,
            )).push(m@));
        }
        i = i + 1;
    }
    proof {
        assert(lock_marks(v@).take(n as int) =~= lock_marks(v@));
    }
}

/// The markers of the first `n` hazards, without those that a typed zone covers.
pub open spec fn hazard_marks(v: Seq<Hazard>, n: nat) -> Seq<Mark>
    decreases n,
{
    if n == 0 {
        seq![]
    } else {
        let rest = hazard_marks(v, (n - 1) as nat);
        if v[n - 1].covered {
            rest
        } else {
            rest.push(mark(PoiLayer::Hazard, v[n - 1].pos, hazard_card(v[n - 1])))
        }
    }
}

/// Mark hazards.
pub fn mark_hazards(v: &Vec<Hazard>, out: &mut Vec<Marker>)
    ensures
        marks(final(out)@) == marks(old(out)@) + hazard_marks(v@, v@.len()),
{
    let ghost before = marks(out@);
    let n: usize = v.len();
    let mut i: usize = 0;
    proof {
        assert(before + hazard_marks(v@, 0) =~= before);
    }
    while i < n
        invariant
            i <= n,
            n == v@.len(),
            marks(out@) == before + hazard_marks(v@, i as nat),
        decreases n - i,
    {
        if !v[i].covered {
            let m = marker(PoiLayer::Hazard, v[i].pos, hazard_info(&v[i]));
            add_marker(out, m);
            proof {
                assert(before + hazard_marks(v@, (i + 1) as nat) =~= (before + hazard_marks(
                    v@,
                    i as nat,
                )).push(m@));
            }
        }
        i = i + 1;
    }
}

/// The price that a loose item is filtered by: nothing where it has none.
pub open spec fn roubles_or_none(pr: Option<Price>) -> i64 {
    match pr {
        Some(p) => p.roubles,
        None => 0,
    }
}

/// The marker of a loose item.
pub open spec fn loose_mark(lo: Loose) -> Mark {
    Mark {
        value: Some(roubles_or_none(lo.pr)),
        icon: if lo.n@.len() > 0 {
            Some(lo.n@)
        } else {
            None
        },
        ..mark(PoiLayer::LooseLoot, lo.pos, loose_card(lo))
    }
}

/// The markers of the first `n` loose items, without those that a typed loot point stands for.
pub open spec fn loose_marks(v: Seq<Loose>, n: nat) -> Seq<Mark>
    decreases n,
{
    if n == 0 {
        seq![]
    } else {
        let rest = loose_marks(v, (n - 1) as nat);
        if has_twin(v[n - 1]) {
            rest
        } else {
            rest.push(loose_mark(v[n - 1]))
        }
    }
}

/// Mark loose items.
pub fn mark_loose(v: &Vec<Loose>, out: &mut Vec<Marker>)
    ensures
        marks(final(out)@) == marks(old(out)@) + loose_marks(v@, v@.len()),
{
    let ghost before = marks(out@);
    let n: usize = v.len();
    let mut i: usize = 0;
    proof {
        assert(before + loose_marks(v@, 0) =~= before);
    }
    while i < n
        invariant
            i <= n,
            n == v@.len(),
            marks(out@) == before + loose_marks(v@, i as nat),
        decreases n - i,
    {
        let lo = &v[i];
        if !find_twin(lo) {
            let mut m = marker(PoiLayer::LooseLoot, lo.pos, loose_info(lo));
            m.value = Some(
                MarkerValue(
                    match &lo.pr {
                        Some(p) => p.roubles,
                        None => 0,
                    },
                ),
            );
            if !is_blank(lo.n.as_str()) {
                m.icon = Some(lo.n.as_str().to_owned());
            }
            add_marker(out, m);
            proof {
                assert(m@ =~= loose_mark(*lo));
                assert(before + loose_marks(v@, (i + 1) as nat) =~= (before + loose_marks(
                    v@,
                    i as nat,
                )).push(m@));
            }
        }
        i = i + 1;
    }
}

/// An extract that stands for all entries of the list at one spot.
#[verifier::ext_equal]
pub struct Merged {
    /// The first entry.
    pub first: int,
    /// The factions of all entries, joined by pluses.
    pub facs: Seq<char>,
    /// The words of the factions.
    pub parts: Seq<Titled>,
}

/// Where in `m` the entry stands that extract `i` belongs to: the first of the same name that is less
/// than three metres away.
pub open spec fn same_spot(v: Seq<ExtractDev>, m: Seq<Merged>, i: int) -> Option<int>
    decreases m.len(),
{
    if m.len() == 0 {
        None
    } else {
        match same_spot(v, m.drop_last(), i) {
            Some(k) => Some(k),
            None => if v[m.last().first].name@ == v[i].name@ && within(v[i].dist2@, m.last().first, SAME_EXTRACT_2) {
                Some(m.len() - 1)
            } else {
                None
            },
        }
    }
}

/// The extracts that stand for the first `n` entries of the list.
pub open spec fn merged(v: Seq<ExtractDev>, n: nat) -> Seq<Merged>
    decreases n,
{
    if n == 0 {
        seq![]
    } else {
        let m = merged(v, (n - 1) as nat);
        let e = v[n - 1];
        match same_spot(v, m, n - 1) {
            Some(k) => if pieces(m[k].facs, '+').contains(e.fac.text@) {
                m
            } else {
                m.update(
                    k,
                    Merged {
                        first: m[k].first,
                        facs: m[k].facs + "+"@ + e.fac.text@,
                        parts: m[k].parts + titles(e.fac.parts@),
                    },
                )
            },
            None => m.push(Merged { first: n - 1, facs: e.fac.text@, parts: titles(e.fac.parts@) }),
        }
    }
}

/// The colour of an extract of the community's list.
pub open spec fn dev_tint(fac: Seq<char>) -> Option<Tint> {
    if fac == "scav"@ {
        Some(Tint::Scav)
    } else if fac == "shared"@ || fac.contains('+') {
        Some(Tint::Shared)
    } else {
        None
    }
}

/// The markers of the extracts of the community's list, one for each spot.
pub open spec fn extract_marks(v: Seq<ExtractDev>) -> Seq<Mark> {
    let m = merged(v, v.len());
    Seq::new(
        m.len(),
        |i: int|
            Mark {
                tint: dev_tint(m[i].facs),
                faction: Some(m[i].facs),
                ..mark(
                    PoiLayer::Extract,
                    v[m[i].first].pos,
                    extract_card(v[m[i].first].name@, m[i].facs, m[i].parts),
                )
            },
    )
}

/// An extract that stands for all entries at one spot.
struct MergedExtract {
    first: usize,
    facs: String,
    parts: Vec<Word>,
}

/// What a list of joined extracts stands for.
spec fn merged_views(m: Seq<MergedExtract>) -> Seq<Merged> {
    Seq::new(
        m.len(),
        |i: int| Merged { first: m[i].first as int, facs: m[i].facs@, parts: titles(m[i].parts@) },
    )
}

fn find_spot(v: &Vec<ExtractDev>, m: &Vec<MergedExtract>, i: usize) -> (r: Option<usize>)
    requires
        i < v@.len(),
        forall|k: int| 0 <= k < m@.len() ==> (#[trigger] m@[k]).first < v@.len(),
    ensures
        match r {
            Some(k) => same_spot(v@, merged_views(m@), i as int) == Some(k as int) && k < m@.len(),
            None => same_spot(v@, merged_views(m@), i as int) is None,
        },
{
    let n: usize = m.len();
    let mut k: usize = 0;
    proof {
        assert(merged_views(m@).take(0).len() == 0);
    }
    while k < n
        invariant
            k <= n,
            n == m@.len(),
            i < v@.len(),
            forall|j: int| 0 <= j < m@.len() ==> (#[trigger] m@[j]).first < v@.len(),
            same_spot(v@, merged_views(m@).take(k as int), i as int) is None,
        decreases n - k,
    {
        let ghost t = merged_views(m@).take(k + 1);
        proof {
            assert(t.drop_last() =~= merged_views(m@).take(k as int));
            assert(t.last() == merged_views(m@)[k as int]);
        }
        let f: usize = m[k].first;
        if same(v[f].name.as_str(), v[i].name.as_str()) && is_within(&v[i].dist2, f, SAME_EXTRACT_2) {
            proof {
                spot_stays(v@, merged_views(m@), i as int, k + 1);
            }
            return Some(k);
        }
        k = k + 1;
    }
    proof {
        assert(merged_views(m@).take(n as int) =~= merged_views(m@));
    }
    None
}

/// A spot that is found in a prefix is the one that is found.
proof fn spot_stays(v: Seq<ExtractDev>, m: Seq<Merged>, i: int, k: int)
    requires
        0 <= k <= m.len(),
        same_spot(v, m.take(k), i) is Some,
    ensures
        same_spot(v, m, i) == same_spot(v, m.take(k), i),
    decreases m.len(),
{
    if k == m.len() {
        assert(m.take(k) =~= m);
    } else {
        assert(m.drop_last().take(k) =~= m.take(k));
        spot_stays(v, m.drop_last(), i, k);
    }
}

fn merge_extracts(v: &Vec<ExtractDev>) -> (r: Vec<MergedExtract>)
    ensures
        merged_views(r@) == merged(v@, v@.len()),
        forall|k: int| 0 <= k < r@.len() ==> (#[trigger] r@[k]).first < v@.len(),
{
    let mut m: Vec<MergedExtract> = Vec::new();
    let n: usize = v.len();
    let mut i: usize = 0;
    proof {
        assert(merged_views(m@) =~= merged(v@, 0));
    }
    while i < n
        invariant
            i <= n,
            n == v@.len(),
            merged_views(m@) == merged(v@, i as nat),
            forall|k: int| 0 <= k < m@.len() ==> (#[trigger] m@[k]).first < v@.len(),
        decreases n - i,
    {
        let ghost before = m@;
        match find_spot(v, &m, i) {
            Some(k) => {
                let known = split_at_char(m[k].facs.as_str(), '+');
                if !holds(&known, v[i].fac.text.as_str()) {
                    let facs = join3(m[k].facs.as_str(), "+", v[i].fac.text.as_str());
                    let mut parts: Vec<Word> = Vec::new();
                    proof {
                        assert(titles(parts@) =~= Seq::<Titled>::empty());
                    }
                    append_words(&mut parts, &m[k].parts);
                    append_words(&mut parts, &v[i].fac.parts);
                    let first: usize = m[k].first;
                    let joined_extract = MergedExtract { first, facs, parts };
                    m.set(k, joined_extract);
                    proof {
                        let e = merged(v@, i as nat)[k as int];
                        assert(e == merged_views(before)[k as int]);
                        assert(titles(parts@) =~= e.parts + titles(v@[i as int].fac.parts@));
                        assert(merged_views(m@) =~= merged(v@, (i + 1) as nat));
                    }
                }
            },
            None => {
                let mut parts: Vec<Word> = Vec::new();
                proof {
                    assert(titles(parts@) =~= Seq::<Titled>::empty());
                }
                append_words(&mut parts, &v[i].fac.parts);
                proof {
                    assert(titles(parts@) =~= titles(v@[i as int].fac.parts@));
                }
                m.push(MergedExtract { first: i, facs: v[i].fac.text.as_str().to_owned(), parts });
                proof {
                    assert(merged_views(m@) =~= merged(v@, (i + 1) as nat));
                }
            },
        }
        i = i + 1;
    }
    m
}

/// Mark the extracts of the community's list: entries of one name at one spot become one marker that
/// carries all their factions.
pub fn mark_extracts(v: &Vec<ExtractDev>, out: &mut Vec<Marker>)
    ensures
        marks(final(out)@) == marks(old(out)@) + extract_marks(v@),
{
    let m = merge_extracts(v);
    let ghost before = marks(out@);
    let n: usize = m.len();
    let mut i: usize = 0;
    proof {
        assert(before + extract_marks(v@).take(0) =~= before);
        assert(merged_views(m@).len() == n);
    }
    while i < n
        invariant
            i <= n,
            n == m@.len(),
            n == extract_marks(v@).len(),
            merged_views(m@) == merged(v@, v@.len()),
            forall|k: int| 0 <= k < m@.len() ==> (#[trigger] m@[k]).first < v@.len(),
            marks(out@) == before + extract_marks(v@).take(i as int),
        decreases n - i,
    {
        let x = &m[i];
        let e = &v[x.first];
        let mut k = marker(
            PoiLayer::Extract,
            e.pos,
            extract_dev_info(e.name.as_str(), x.facs.as_str(), &x.parts),
        );
        if same(x.facs.as_str(), "scav") {
            k.tint = Some(Tint::Scav);
        } else if same(x.facs.as_str(), "shared") || contains_char(x.facs.as_str(), '+') {
            k.tint = Some(Tint::Shared);
        }
        k.faction = Some(ExtractFaction(x.facs.as_str().to_owned()));
        add_marker(out, k);
        proof {
            assert(merged_views(m@)[i as int] == merged(v@, v@.len())[i as int]);
            assert(k@ =~= extract_marks(v@)[i as int]);
            assert(before + extract_marks(v@).take(i + 1) =~= (before + extract_marks(v@).take(
                i as int,
            )).push(k@));
        }
        i = i + 1;
    }
    proof {
        assert(extract_marks(v@).take(n as int) =~= extract_marks(v@));
    }
}

/// The spot that is found is one of those given, and of the name that was looked for.
proof fn same_spot_matches(v: Seq<ExtractDev>, m: Seq<Merged>, i: int)
    ensures
        same_spot(v, m, i) is Some ==> 0 <= same_spot(v, m, i)->0 < m.len()
            && v[m[same_spot(v, m, i)->0].first].name@ == v[i].name@,
    decreases m.len(),
{
    if m.len() > 0 {
        same_spot_matches(v, m.drop_last(), i);
    }
}

/// Whether entry `i` is carried by a joined extract: one of its name that lists its faction.
pub open spec fn carried(v: Seq<ExtractDev>, m: Seq<Merged>, i: int) -> bool {
    exists|k: int|
        0 <= k < m.len() && v[(#[trigger] m[k]).first].name@ == v[i].name@ && pieces(m[k].facs, '+').contains(
            v[i].fac.text@,
        )
}

/// Joining entries loses none: each is carried by a marker of its name that lists its faction. (An
/// entry that itself joins factions by a plus is left out here: its parts are listed, not the whole.)
pub proof fn no_extract_is_lost(v: Seq<ExtractDev>, n: nat, i: int)
    requires
        0 <= i < n <= v.len(),
        !v[i].fac.text@.contains('+'),
    ensures
        carried(v, merged(v, n), i),
    decreases n,
{
    let m = merged(v, (n - 1) as nat);
    let all = merged(v, n);
    let e = v[n - 1];
    same_spot_matches(v, m, n - 1);
    reveal_strlit("+");
    if i < n - 1 {
        no_extract_is_lost(v, (n - 1) as nat, i);
        let k = choose|k: int|
            0 <= k < m.len() && v[(#[trigger] m[k]).first].name@ == v[i].name@ && pieces(m[k].facs, '+').contains(
                v[i].fac.text@,
            );
        assert(v[all[k].first].name@ == v[i].name@);
        if all[k].facs != m[k].facs {
            assert(all[k].facs =~= m[k].facs.push('+') + e.fac.text@);
            pieces_of_joined(m[k].facs, e.fac.text@, '+');
            let j = choose|j: int|
                0 <= j < pieces(m[k].facs, '+').len() && pieces(m[k].facs, '+')[j] == v[i].fac.text@;
            assert(pieces(all[k].facs, '+')[j] == v[i].fac.text@);
        }
    } else {
        pieces_of_plain(e.fac.text@, '+');
        match same_spot(v, m, n - 1) {
            Some(k) => {
                assert(v[all[k].first].name@ == v[i].name@);
                if !pieces(m[k].facs, '+').contains(e.fac.text@) {
                    assert(all[k].facs =~= m[k].facs.push('+') + e.fac.text@);
                    pieces_of_joined(m[k].facs, e.fac.text@, '+');
                    let j = pieces(m[k].facs, '+').len() as int;
                    assert(pieces(all[k].facs, '+')[j] == e.fac.text@);
                }
            },
            None => {
                let k = m.len() as int;
                assert(all[k].first == n - 1);
                assert(pieces(all[k].facs, '+')[0] == e.fac.text@);
            },
        }
    }
}

} // verus!
