//! Markers, walls and outlines that come from the typed game data.
use vstd::prelude::*;
use crate::compose::{is_blank, maybe_text, some_text};
use crate::f32bits::{float, F32};
use crate::gpu::materials::V3;
use crate::poi::card::{
    extract_faction_color, gd_door_info, gd_exfil_info, gd_loose_info, gd_mine_info, gd_stationary_info,
    gd_trader_info, gd_trigger_info, gd_zone_info, MarkerInfo,
};
use crate::poi::card::{
    door_card, exfil_card, faction_color, gd_loose_card, mine_card, plain_card, trader_card, trigger_card, zone_card,
    Card,
};
use crate::poi::layer::{look, poi_look, MarkerValue, PoiLayer};
use crate::poi::marker::{
    add_marker, add_wall, copy_points, first_named_key, marker, ExtractFaction, Marker, Tint, Wall,
};
use crate::poi::marker::{first_named, mark, marks, wall_marks, Mark, WallMark};
use crate::poi::records::{ExtractDev, GameData, GdDoor, GdExfil, GdLoose, GdLooseItem, GdStationary, GdZone, Lock};
use crate::text::same;

verus! {

/// The bits of 60.0: how far an extract may be from the name that it takes.
pub const NAME_REACH: u32 = 0x4270_0000;

/// The bits of 4.0: the square of how far a lock may be from its door.
pub const LOCK_REACH_SQUARED: u32 = 0x4080_0000;

/// Which of the first `n` usable candidates is nearest; the first of those that are equally near.
pub open spec fn nearest(dist: Seq<F32>, usable: Seq<bool>, n: nat) -> Option<int>
    decreases n,
{
    if n == 0 {
        None
    } else {
        let best = nearest(dist, usable, (n - 1) as nat);
        if usable[n - 1] && (best is None || dist[n - 1].total_rank() < dist[best->0].total_rank()) {
            Some(n - 1)
        } else {
            best
        }
    }
}

/// Which of the usable candidates is nearest.
pub fn nearest_of(dist: &Vec<F32>, usable: &Vec<bool>) -> (r: Option<usize>)
    requires
        usable@.len() <= dist@.len(),
    ensures
        match r {
            Some(k) => nearest(dist@, usable@, usable@.len()) == Some(k as int) && k < usable@.len(),
            None => nearest(dist@, usable@, usable@.len()) is None,
        },
{
    let n: usize = usable.len();
    let mut best: Option<usize> = None;
    let mut i: usize = 0;
    while i < n
        invariant
            i <= n,
            n == usable@.len(),
            n <= dist@.len(),
            match best {
                Some(k) => nearest(dist@, usable@, i as nat) == Some(k as int) && k < i,
                None => nearest(dist@, usable@, i as nat) is None,
            },
        decreases n - i,
    {
        if usable[i] {
            let better = match best {
                Some(k) => dist[i].total_rank_of() < dist[k].total_rank_of(),
                None => true,
            };
            if better {
                best = Some(i);
            }
        }
        i = i + 1;
    }
    best
}

/// The nearest candidate is usable; no usable one is nearer, and none before it is as near. There is
/// one exactly where some candidate is usable.
pub proof fn nearest_is_least(dist: Seq<F32>, usable: Seq<bool>, n: nat)
    requires
        n <= usable.len(),
        n <= dist.len(),
    ensures
        nearest(dist, usable, n) is None ==> forall|j: int| 0 <= j < n ==> !#[trigger] usable[j],
        nearest(dist, usable, n) is Some ==> {
            let k = nearest(dist, usable, n)->0;
            &&& 0 <= k < n
            &&& usable[k]
            &&& forall|j: int|
                0 <= j < n && #[trigger] usable[j] ==> dist[k].total_rank() <= dist[j].total_rank() && (j < k
                    ==> dist[k].total_rank() < dist[j].total_rank())
        },
    decreases n,
{
    if n > 0 {
        nearest_is_least(dist, usable, (n - 1) as nat);
    }
}

/// Which extracts of the community's list may name a typed one: those with a name, within reach.
pub open spec fn may_name(exs: Seq<ExtractDev>, dist: Seq<F32>) -> Seq<bool> {
    Seq::new(
        if exs.len() <= dist.len() {
            exs.len()
        } else {
            dist.len()
        },
        |j: int| exs[j].name@.len() > 0 && dist[j].le(float(NAME_REACH)),
    )
}

/// The name that the community has for a typed extract: that of the nearest named one within reach.
pub open spec fn friendly_name(exs: Seq<ExtractDev>, dist: Seq<F32>) -> Option<Seq<char>> {
    let usable = may_name(exs, dist);
    match nearest(dist, usable, usable.len()) {
        Some(k) => Some(exs[k].name@),
        None => None,
    }
}

/// The name that the community has for a typed extract, given how far each of its extracts is.
pub fn find_friendly(exs: &Vec<ExtractDev>, dist: &Vec<F32>) -> (r: Option<String>)
    ensures
        maybe_text(r) == friendly_name(exs@, dist@),
{
    let n: usize = if exs.len() <= dist.len() {
        exs.len()
    } else {
        dist.len()
    };
    let mut usable: Vec<bool> = Vec::new();
    let mut i: usize = 0;
    while i < n
        invariant
            i <= n,
            n <= exs@.len(),
            n <= dist@.len(),
            n == may_name(exs@, dist@).len(),
            usable@ == may_name(exs@, dist@).take(i as int),
        decreases n - i,
    {
        let ok = !is_blank(exs[i].name.as_str()) && dist[i].less_or_equal(F32 { bits: NAME_REACH });
        usable.push(ok);
        proof {
            assert(usable@ =~= may_name(exs@, dist@).take(i + 1));
        }
        i = i + 1;
    }
    proof {
        assert(may_name(exs@, dist@).take(n as int) =~= may_name(exs@, dist@));
    }
    match nearest_of(dist, &usable) {
        Some(k) => Some(exs[k].name.as_str().to_owned()),
        None => None,
    }
}

/// Which locks of the community's list may name the key of a door: those with a named key, within
/// reach.
pub open spec fn may_key(locks: Seq<Lock>, dist: Seq<F32>) -> Seq<bool> {
    Seq::new(
        if locks.len() <= dist.len() {
            locks.len()
        } else {
            dist.len()
        },
        |j: int| first_named(locks[j].keys@) is Some && dist[j].lt(float(LOCK_REACH_SQUARED)),
    )
}

/// The name of the key of a door: that of the nearest lock within reach, for a door that has a key.
pub open spec fn door_key(locks: Seq<Lock>, d: GdDoor) -> Option<Seq<char>> {
    let usable = may_key(locks, d.lock_dist@);
    if some_text(d.key_id) is None {
        None
    } else {
        match nearest(d.lock_dist@, usable, usable.len()) {
            Some(k) => first_named(locks[k].keys@),
            None => None,
        }
    }
}

/// The name of the key of a door.
pub fn find_door_key(locks: &Vec<Lock>, d: &GdDoor) -> (r: Option<String>)
    ensures
        maybe_text(r) == door_key(locks@, *d),
{
    let keyed = match &d.key_id {
        Some(k) => !is_blank(k.as_str()),
        None => false,
    };
    if !keyed {
        return None;
    }
    let dist = &d.lock_dist;
    let n: usize = if locks.len() <= dist.len() {
        locks.len()
    } else {
        dist.len()
    };
    let mut usable: Vec<bool> = Vec::new();
    let mut i: usize = 0;
    while i < n
        invariant
            i <= n,
            n <= locks@.len(),
            n <= dist@.len(),
            n == may_key(locks@, dist@).len(),
            usable@ == may_key(locks@, dist@).take(i as int),
        decreases n - i,
    {
        let named = first_named_key(&locks[i].keys).is_some();
        let ok = named && dist[i].less(F32 { bits: LOCK_REACH_SQUARED });
        usable.push(ok);
        proof {
            assert(usable@ =~= may_key(locks@, dist@).take(i + 1));
        }
        i = i + 1;
    }
    proof {
        assert(may_key(locks@, dist@).take(n as int) =~= may_key(locks@, dist@));
    }
    match nearest_of(dist, &usable) {
        Some(k) => first_named_key(&locks[k].keys),
        None => None,
    }
}

/// An outline, and whether its zone is active in the scene.
#[derive(Debug)]
pub struct Ring {
    pub outline: Vec<V3>,
    pub active: bool,
}

/// What a list of outlines stands for.
pub open spec fn rings(v: Seq<Ring>) -> Seq<(Seq<V3>, bool)> {
    Seq::new(v.len(), |i: int| (v[i].outline@, v[i].active))
}

/// The outline of an extract.
#[derive(Debug)]
pub struct ExfilRing {
    pub faction: String,
    pub outline: Vec<V3>,
    pub active: bool,
}

/// What a list of outlines of extracts stands for.
pub open spec fn exfil_rings(v: Seq<ExfilRing>) -> Seq<(Seq<char>, Seq<V3>, bool)> {
    Seq::new(v.len(), |i: int| (v[i].faction@, v[i].outline@, v[i].active))
}

fn add_ring(out: &mut Vec<Ring>, outline: Vec<V3>, active: bool)
    ensures
        rings(final(out)@) == rings(old(out)@).push((outline@, active)),
{
    let ghost before = out@;
    out.push(Ring { outline, active });
    proof {
        assert(rings(out@) =~= rings(before).push((outline@, active)));
    }
}

fn add_exfil_ring(out: &mut Vec<ExfilRing>, faction: String, outline: Vec<V3>, active: bool)
    ensures
        exfil_rings(final(out)@) == exfil_rings(old(out)@).push((faction@, outline@, active)),
{
    let ghost before = out@;
    out.push(ExfilRing { faction, outline, active });
    proof {
        assert(exfil_rings(out@) =~= exfil_rings(before).push((faction@, outline@, active)));
    }
}

/// The colour of a typed extract.
pub open spec fn exfil_tint(fac: Seq<char>) -> Option<Tint> {
    if fac == "scav"@ {
        Some(Tint::Scav)
    } else if fac == "shared"@ {
        Some(Tint::Shared)
    } else if fac == "secret"@ {
        Some(Tint::Secret)
    } else {
        None
    }
}

/// The markers of the typed extracts.
pub open spec fn exfil_marks(v: Seq<GdExfil>, exs: Seq<ExtractDev>) -> Seq<Mark> {
    Seq::new(
        v.len(),
        |i: int|
            Mark {
                tint: exfil_tint(v[i].faction.text@),
                faction: Some(v[i].faction.text@),
                inactive: !v[i].active,
                ..mark(
                    PoiLayer::Extract,
                    v[i].pos,
                    exfil_card(v[i], friendly_name(exs, v[i].dev_dist@)),
                )
            },
    )
}

/// The walls of the first `n` typed extracts that have an outline.
pub open spec fn exfil_walls(v: Seq<GdExfil>, n: nat) -> Seq<WallMark>
    decreases n,
{
    if n == 0 {
        seq![]
    } else {
        let rest = exfil_walls(v, (n - 1) as nat);
        let e = v[n - 1];
        if e.outline@.len() >= 3 {
            rest.push(
                WallMark {
                    layer: PoiLayer::Extract,
                    outline: e.outline@,
                    color: faction_color(e.faction.text@),
                    active: e.active,
                    task: None,
                },
            )
        } else {
            rest
        }
    }
}

/// The outlines of the first `n` typed extracts that have one.
pub open spec fn exfil_outlines(v: Seq<GdExfil>, n: nat) -> Seq<(Seq<char>, Seq<V3>, bool)>
    decreases n,
{
    if n == 0 {
        seq![]
    } else {
        let rest = exfil_outlines(v, (n - 1) as nat);
        let e = v[n - 1];
        if e.outline@.len() >= 3 {
            rest.push((e.faction.text@, e.outline@, e.active))
        } else {
            rest
        }
    }
}

fn exfil_marker(e: &GdExfil, exs: &Vec<ExtractDev>) -> (m: Marker)
    ensures
        m@ == (Mark {
            tint: exfil_tint(e.faction.text@),
            faction: Some(e.faction.text@),
            inactive: !e.active,
            ..mark(PoiLayer::Extract, e.pos, exfil_card(*e, friendly_name(exs@, e.dev_dist@)))
        }),
{
    let friendly = find_friendly(exs, &e.dev_dist);
    let info = match &friendly {
        Some(f) => gd_exfil_info(e, Some(f.as_str())),
        None => gd_exfil_info(e, None),
    };
    let mut m = marker(PoiLayer::Extract, e.pos, info);
    let fac = e.faction.text.as_str();
    if same(fac, "scav") {
        m.tint = Some(Tint::Scav);
    } else if same(fac, "shared") {
        m.tint = Some(Tint::Shared);
    } else if same(fac, "secret") {
        m.tint = Some(Tint::Secret);
    }
    m.faction = Some(ExtractFaction(fac.to_owned()));
    m.inactive = !e.active;
    m
}

/// Mark the typed extracts, under the names that the community has for them, with walls and outlines.
pub fn mark_exfils(
    v: &Vec<GdExfil>,
    exs: &Vec<ExtractDev>,
    out: &mut Vec<Marker>,
    walls: &mut Vec<Wall>,
    sink: &mut Vec<ExfilRing>,
)
    ensures
        marks(final(out)@) == marks(old(out)@) + exfil_marks(v@, exs@),
        wall_marks(final(walls)@) == wall_marks(old(walls)@) + exfil_walls(v@, v@.len()),
        exfil_rings(final(sink)@) == exfil_rings(old(sink)@) + exfil_outlines(v@, v@.len()),
{
    let ghost m0 = marks(out@);
    let ghost w0 = wall_marks(walls@);
    let ghost s0 = exfil_rings(sink@);
    let n: usize = v.len();
    let mut i: usize = 0;
    proof {
        assert(m0 + exfil_marks(v@, exs@).take(0) =~= m0);
        assert(w0 + exfil_walls(v@, 0) =~= w0);
        assert(s0 + exfil_outlines(v@, 0) =~= s0);
    }
    while i < n
        invariant
            i <= n,
            n == v@.len(),
            marks(out@) == m0 + exfil_marks(v@, exs@).take(i as int),
            wall_marks(walls@) == w0 + exfil_walls(v@, i as nat),
            exfil_rings(sink@) == s0 + exfil_outlines(v@, i as nat),
        decreases n - i,
    {
        let e = &v[i];
        let m = exfil_marker(e, exs);
        add_marker(out, m);
        proof {
            assert(m0 + exfil_marks(v@, exs@).take(i + 1) =~= (m0 + exfil_marks(v@, exs@).take(
                i as int,
            )).push(m@));
        }
        if e.outline.len() >= 3 {
            let fac = e.faction.text.as_str();
            let w = Wall {
                layer: PoiLayer::Extract,
                outline: copy_points(&e.outline),
                color: extract_faction_color(fac),
                active: e.active,
                task: None,
            };
            add_wall(walls, w);
            add_exfil_ring(sink, fac.to_owned(), copy_points(&e.outline), e.active);
            proof {
                assert(w0 + exfil_walls(v@, (i + 1) as nat) =~= (w0 + exfil_walls(v@, i as nat)).push(w@));
                assert(s0 + exfil_outlines(v@, (i + 1) as nat) =~= (s0 + exfil_outlines(
                    v@,
                    i as nat,
                )).push((e.faction.text@, e.outline@, e.active)));
            }
        }
        i = i + 1;
    }
    proof {
        assert(exfil_marks(v@, exs@).take(n as int) =~= exfil_marks(v@, exs@));
    }
}

/// The kinds of typed zones that are marked.
#[derive(Clone, Copy, Debug, PartialEq, Eq, Structural)]
pub enum ZoneKind {
    Minefield,
    SniperZone,
    DirectionalMine,
    Trader,
    QuestTrigger,
}

impl ZoneKind {
    /// The layer of a zone.
    pub open spec fn layer(self) -> PoiLayer {
        match self {
            ZoneKind::Minefield => PoiLayer::Minefield,
            ZoneKind::SniperZone => PoiLayer::SniperZone,
            ZoneKind::DirectionalMine => PoiLayer::Hazard,
            ZoneKind::Trader => PoiLayer::Hazard,
            ZoneKind::QuestTrigger => PoiLayer::Quest,
        }
    }

    /// The card of a zone.
    pub open spec fn card(self, z: GdZone) -> Card {
        match self {
            ZoneKind::Minefield => zone_card(PoiLayer::Minefield, z),
            ZoneKind::SniperZone => zone_card(PoiLayer::SniperZone, z),
            ZoneKind::DirectionalMine => mine_card(z),
            ZoneKind::Trader => trader_card(z),
            ZoneKind::QuestTrigger => trigger_card(z),
        }
    }

    fn layer_of(self) -> (r: PoiLayer)
        ensures
            r == self.layer(),
    {
        match self {
            ZoneKind::Minefield => PoiLayer::Minefield,
            ZoneKind::SniperZone => PoiLayer::SniperZone,
            ZoneKind::DirectionalMine => PoiLayer::Hazard,
            ZoneKind::Trader => PoiLayer::Hazard,
            ZoneKind::QuestTrigger => PoiLayer::Quest,
        }
    }

    fn info(self, z: &GdZone) -> (r: MarkerInfo)
        ensures
            r@ == self.card(*z),
    {
        match self {
            ZoneKind::Minefield => gd_zone_info(PoiLayer::Minefield, z),
            ZoneKind::SniperZone => gd_zone_info(PoiLayer::SniperZone, z),
            ZoneKind::DirectionalMine => gd_mine_info(z),
            ZoneKind::Trader => gd_trader_info(z),
            ZoneKind::QuestTrigger => gd_trigger_info(z),
        }
    }
}

/// The markers of typed zones.
pub open spec fn zone_marks(kind: ZoneKind, v: Seq<GdZone>) -> Seq<Mark> {
    Seq::new(
        v.len(),
        |i: int|
            Mark { inactive: !v[i].active, ..mark(kind.layer(), v[i].pos, kind.card(v[i])) },
    )
}

/// Mark typed zones.
pub fn mark_zones(kind: ZoneKind, v: &Vec<GdZone>, out: &mut Vec<Marker>)
    ensures
        marks(final(out)@) == marks(old(out)@) + zone_marks(kind, v@),
{
    let ghost before = marks(out@);
    let n: usize = v.len();
    let mut i: usize = 0;
    proof {
        assert(before + zone_marks(kind, v@).take(0) =~= before);
    }
    while i < n
        invariant
            i <= n,
            n == v@.len(),
            marks(out@) == before + zone_marks(kind, v@).take(i as int),
        decreases n - i,
    {
        let mut m = marker(kind.layer_of(), v[i].pos, kind.info(&v[i]));
        m.inactive = !v[i].active;
        add_marker(out, m);
        proof {
            assert(m@ =~= zone_marks(kind, v@)[i as int]);
            assert(before + zone_marks(kind, v@).take(i + 1) =~= (before + zone_marks(kind, v@).take(
                i as int,
            )).push(m@));
        }
        i = i + 1;
    }
    proof {
        assert(zone_marks(kind, v@).take(n as int) =~= zone_marks(kind, v@));
    }
}

/// The walls of the first `n` zones that have an outline.
pub open spec fn zone_walls(layer: PoiLayer, v: Seq<GdZone>, n: nat) -> Seq<WallMark>
    decreases n,
{
    if n == 0 {
        seq![]
    } else {
        let rest = zone_walls(layer, v, (n - 1) as nat);
        let z = v[n - 1];
        if z.outline@.len() >= 3 {
            rest.push(
                WallMark {
                    layer,
                    outline: z.outline@,
                    color: look(layer).color,
                    active: z.active,
                    task: None,
                },
            )
        } else {
            rest
        }
    }
}

/// The outlines of the first `n` zones that have one.
pub open spec fn zone_outlines(v: Seq<GdZone>, n: nat) -> Seq<(Seq<V3>, bool)>
    decreases n,
{
    if n == 0 {
        seq![]
    } else {
        let rest = zone_outlines(v, (n - 1) as nat);
        let z = v[n - 1];
        if z.outline@.len() >= 3 {
            rest.push((z.outline@, z.active))
        } else {
            rest
        }
    }
}

/// Put walls and outlines around zones.
pub fn fence_zones(layer: PoiLayer, v: &Vec<GdZone>, walls: &mut Vec<Wall>, sink: &mut Vec<Ring>)
    ensures
        wall_marks(final(walls)@) == wall_marks(old(walls)@) + zone_walls(layer, v@, v@.len()),
        rings(final(sink)@) == rings(old(sink)@) + zone_outlines(v@, v@.len()),
{
    let ghost w0 = wall_marks(walls@);
    let ghost s0 = rings(sink@);
    let n: usize = v.len();
    let mut i: usize = 0;
    proof {
        assert(w0 + zone_walls(layer, v@, 0) =~= w0);
        assert(s0 + zone_outlines(v@, 0) =~= s0);
    }
    while i < n
        invariant
            i <= n,
            n == v@.len(),
            wall_marks(walls@) == w0 + zone_walls(layer, v@, i as nat),
            rings(sink@) == s0 + zone_outlines(v@, i as nat),
        decreases n - i,
    {
        let z = &v[i];
        if z.outline.len() >= 3 {
            let w = Wall {
                layer,
                outline: copy_points(&z.outline),
                color: poi_look(layer).color,
                active: z.active,
                task: None,
            };
            add_wall(walls, w);
            add_ring(sink, copy_points(&z.outline), z.active);
            proof {
                assert(w0 + zone_walls(layer, v@, (i + 1) as nat) =~= (w0 + zone_walls(
                    layer,
                    v@,
                    i as nat,
                )).push(w@));
                assert(s0 + zone_outlines(v@, (i + 1) as nat) =~= (s0 + zone_outlines(
                    v@,
                    i as nat,
                )).push((z.outline@, z.active)));
            }
        }
        i = i + 1;
    }
}

/// The price of the best item of a loot point, where it has one above nothing.
pub open spec fn best_price(items: Seq<GdLooseItem>) -> Option<i64> {
    if items.len() > 0 && items[0].pr is Some && items[0].pr->0.roubles > 0 {
        Some(items[0].pr->0.roubles)
    } else {
        None
    }
}

/// The item whose icon a loot point shows: the best one, unless it is a category or has no name.
pub open spec fn best_icon(items: Seq<GdLooseItem>) -> Option<Seq<char>> {
    if items.len() > 0 && items[0].cat == 0 {
        maybe_text(items[0].n)
    } else {
        None
    }
}

/// The markers of typed loot points. One without a price carries no value, so that the filter by
/// value never hides it.
pub open spec fn loose_point_marks(v: Seq<GdLoose>) -> Seq<Mark> {
    Seq::new(
        v.len(),
        |i: int|
            Mark {
                value: best_price(v[i].items@),
                icon: best_icon(v[i].items@),
                inactive: !v[i].active,
                ..mark(PoiLayer::LooseLoot, v[i].pos, gd_loose_card(v[i]))
            },
    )
}

fn loose_point_marker(lo: &GdLoose) -> (m: Marker)
    ensures
        m@ == (Mark {
            value: best_price(lo.items@),
            icon: best_icon(lo.items@),
            inactive: !lo.active,
            ..mark(PoiLayer::LooseLoot, lo.pos, gd_loose_card(*lo))
        }),
{
    let mut m = marker(PoiLayer::LooseLoot, lo.pos, gd_loose_info(lo));
    if lo.items.len() > 0 {
        let best = &lo.items[0];
        if let Some(p) = &best.pr {
            if p.roubles > 0 {
                m.value = Some(MarkerValue(p.roubles));
            }
        }
        if best.cat == 0 {
            if let Some(s) = &best.n {
                m.icon = Some(s.as_str().to_owned());
            }
        }
    }
    m.inactive = !lo.active;
    m
}

/// Mark typed loot points.
pub fn mark_loose_points(v: &Vec<GdLoose>, out: &mut Vec<Marker>)
    ensures
        marks(final(out)@) == marks(old(out)@) + loose_point_marks(v@),
{
    let ghost before = marks(out@);
    let n: usize = v.len();
    let mut i: usize = 0;
    proof {
        assert(before + loose_point_marks(v@).take(0) =~= before);
    }
    while i < n
        invariant
            i <= n,
            n == v@.len(),
            marks(out@) == before + loose_point_marks(v@).take(i as int),
        decreases n - i,
    {
        let m = loose_point_marker(&v[i]);
        add_marker(out, m);
        proof {
            assert(before + loose_point_marks(v@).take(i + 1) =~= (before + loose_point_marks(v@).take(
                i as int,
            )).push(m@));
        }
        i = i + 1;
    }
    proof {
        assert(loose_point_marks(v@).take(n as int) =~= loose_point_marks(v@));
    }
}

/// The markers of typed doors, with the keys that the community knows for them.
pub open spec fn door_marks(v: Seq<GdDoor>, locks: Seq<Lock>) -> Seq<Mark> {
    Seq::new(
        v.len(),
        |i: int|
            Mark {
                icon: door_key(locks, v[i]),
                inactive: !v[i].active,
                ..mark(PoiLayer::Door, v[i].pos, door_card(v[i], door_key(locks, v[i])))
            },
    )
}

fn door_marker(d: &GdDoor, locks: &Vec<Lock>) -> (m: Marker)
    ensures
        m@ == (Mark {
            icon: door_key(locks@, *d),
            inactive: !d.active,
            ..mark(PoiLayer::Door, d.pos, door_card(*d, door_key(locks@, *d)))
        }),
{
    let key = find_door_key(locks, d);
    let info = match &key {
        Some(k) => gd_door_info(d, Some(k.as_str())),
        None => gd_door_info(d, None),
    };
    let mut m = marker(PoiLayer::Door, d.pos, info);
    m.icon = key;
    m.inactive = !d.active;
    m
}

/// Mark typed doors.
pub fn mark_doors(v: &Vec<GdDoor>, locks: &Vec<Lock>, out: &mut Vec<Marker>)
    ensures
        marks(final(out)@) == marks(old(out)@) + door_marks(v@, locks@),
{
    let ghost before = marks(out@);
    let n: usize = v.len();
    let mut i: usize = 0;
    proof {
        assert(before + door_marks(v@, locks@).take(0) =~= before);
    }
    while i < n
        invariant
            i <= n,
            n == v@.len(),
            marks(out@) == before + door_marks(v@, locks@).take(i as int),
        decreases n - i,
    {
        let m = door_marker(&v[i], locks);
        add_marker(out, m);
        proof {
            assert(before + door_marks(v@, locks@).take(i + 1) =~= (before + door_marks(
                v@,
                locks@,
            ).take(i as int)).push(m@));
        }
        i = i + 1;
    }
    proof {
        assert(door_marks(v@, locks@).take(n as int) =~= door_marks(v@, locks@));
    }
}

/// The markers of typed mounted weapons.
pub open spec fn gd_stationary_marks(v: Seq<GdStationary>) -> Seq<Mark> {
    Seq::new(
        v.len(),
        |i: int|
            Mark {
                inactive: !v[i].active,
                ..mark(
                    PoiLayer::Stationary,
                    v[i].pos,
                    plain_card(
                        v[i].pretty@,
                        "Stationary weapon \u{00B7} game files"@,
                        PoiLayer::Stationary,
                    ),
                )
            },
    )
}

/// Mark typed mounted weapons.
pub fn mark_gd_stationary(v: &Vec<GdStationary>, out: &mut Vec<Marker>)
    ensures
        marks(final(out)@) == marks(old(out)@) + gd_stationary_marks(v@),
{
    let ghost before = marks(out@);
    let n: usize = v.len();
    let mut i: usize = 0;
    proof {
        assert(before + gd_stationary_marks(v@).take(0) =~= before);
    }
    while i < n
        invariant
            i <= n,
            n == v@.len(),
            marks(out@) == before + gd_stationary_marks(v@).take(i as int),
        decreases n - i,
    {
        let mut m = marker(PoiLayer::Stationary, v[i].pos, gd_stationary_info(&v[i]));
        m.inactive = !v[i].active;
        add_marker(out, m);
        proof {
            assert(m@ =~= gd_stationary_marks(v@)[i as int]);
            assert(before + gd_stationary_marks(v@).take(i + 1) =~= (before + gd_stationary_marks(
                v@,
            ).take(i as int)).push(m@));
        }
        i = i + 1;
    }
    proof {
        assert(gd_stationary_marks(v@).take(n as int) =~= gd_stationary_marks(v@));
    }
}

/// The zones among the first `n` that have an area: three corners at least.
pub open spec fn zones_with_area(v: Seq<GdZone>, n: nat) -> Seq<GdZone>
    decreases n,
{
    if n == 0 {
        Seq::empty()
    } else {
        let rest = zones_with_area(v, (n - 1) as nat);
        if v[n - 1].outline@.len() >= 3 {
            rest.push(v[n - 1])
        } else {
            rest
        }
    }
}

/// The zones that carry a hazard: minefields, sniper zones, directional mines and trader zones.
pub open spec fn hazardous(g: GameData) -> Seq<GdZone> {
    zones_with_area(g.minefields@, g.minefields@.len()) + zones_with_area(
        g.sniper_zones@,
        g.sniper_zones@.len(),
    ) + zones_with_area(g.mines_directional@, g.mines_directional@.len()) + zones_with_area(
        g.trader_zones@,
        g.trader_zones@.len(),
    )
}

/// What references stand for.
pub open spec fn zones_behind(v: Seq<&GdZone>) -> Seq<GdZone> {
    Seq::new(v.len(), |i: int| *v[i])
}

fn add_zones_with_area<'a>(v: &'a Vec<GdZone>, out: &mut Vec<&'a GdZone>)
    ensures
        zones_behind(final(out)@) == zones_behind(old(out)@) + zones_with_area(v@, v@.len()),
{
    let ghost before = zones_behind(out@);
    let mut i: usize = 0;
    proof {
        assert(zones_behind(out@) =~= before + zones_with_area(v@, 0));
    }
    while i < v.len()
        invariant
            i <= v@.len(),
            zones_behind(out@) == before + zones_with_area(v@, i as nat),
        decreases v@.len() - i,
    {
        let ghost had = out@;
        if v[i].outline.len() >= 3 {
            out.push(&v[i]);
            proof {
                assert(zones_behind(out@) =~= zones_behind(had).push(v@[i as int]));
            }
        }
        i = i + 1;
        proof {
            assert(zones_behind(out@) =~= before + zones_with_area(v@, i as nat));
        }
    }
}

/// The zones whose area covers hazards: a point of the community's list inside one of them is the
/// hazard that the zone already shows.
pub fn hazard_zones(g: &GameData) -> (r: Vec<&GdZone>)
    ensures
        zones_behind(r@) == hazardous(*g),
{
    let mut r: Vec<&GdZone> = Vec::new();
    proof {
        assert(zones_behind(r@) =~= Seq::<GdZone>::empty());
        let first = zones_with_area(g.minefields@, g.minefields@.len());
        assert(Seq::<GdZone>::empty() + first =~= first);
    }
    add_zones_with_area(&g.minefields, &mut r);
    add_zones_with_area(&g.sniper_zones, &mut r);
    add_zones_with_area(&g.mines_directional, &mut r);
    add_zones_with_area(&g.trader_zones, &mut r);
    r
}

} // verus!
