//! The layers of markers, how they look and when they show.
use vstd::prelude::*;
use crate::f32bits::{float, F32};
use crate::text::{same, texts};

verus! {

/// The layer that a marker belongs to.
#[derive(Clone, Copy, Debug, PartialEq, Eq, Structural)]
pub enum PoiLayer {
    PmcSpawn,
    ScavSpawn,
    Boss,
    Extract,
    Door,
    Interactable,
    Lock,
    Hazard,
    Switch,
    Transit,
    Stationary,
    LooseLoot,
    Quest,
    Minefield,
    SniperZone,
}

/// A colour by its red, green and blue.
#[derive(Clone, Copy, Debug, PartialEq, Eq, Structural)]
pub struct Color {
    pub r: F32,
    pub g: F32,
    pub b: F32,
}

/// How the markers of a layer look.
#[derive(Clone, Copy, Debug, PartialEq, Eq, Structural)]
pub struct Look {
    pub color: Color,
    /// The radius of the marker in metres.
    pub radius: F32,
    /// How far it hangs above its place.
    pub lift: F32,
}

/// The colour with the given bits.
pub open spec fn color_of(r: u32, g: u32, b: u32) -> Color {
    Color { r: float(r), g: float(g), b: float(b) }
}

/// The look with the given bits.
pub open spec fn look_of(r: u32, g: u32, b: u32, radius: u32, lift: u32) -> Look {
    Look { color: color_of(r, g, b), radius: float(radius), lift: float(lift) }
}

fn make_look(r: u32, g: u32, b: u32, radius: u32, lift: u32) -> (l: Look)
    ensures
        l == look_of(r, g, b, radius, lift),
{
    Look {
        color: Color { r: F32 { bits: r }, g: F32 { bits: g }, b: F32 { bits: b } },
        radius: F32 { bits: radius },
        lift: F32 { bits: lift },
    }
}

/// The look of a layer.
pub open spec fn look(l: PoiLayer) -> Look {
    match l {
        // rgb(0.90, 0.24, 0.22), radius 1.1, lift 1.2
        PoiLayer::PmcSpawn => look_of(0x3f66_6666, 0x3e75_c28f, 0x3e61_47ae, 0x3f8c_cccd, 0x3f99_999a),
        // rgb(0.93, 0.80, 0.24), radius 0.95, lift 1.0
        PoiLayer::ScavSpawn => look_of(0x3f6e_147b, 0x3f4c_cccd, 0x3e75_c28f, 0x3f73_3333, 0x3f80_0000),
        // rgb(0.86, 0.24, 0.86), radius 1.7, lift 1.8
        PoiLayer::Boss => look_of(0x3f5c_28f6, 0x3e75_c28f, 0x3f5c_28f6, 0x3fd9_999a, 0x3fe6_6666),
        // rgb(0.26, 0.90, 0.38), radius 1.3, lift 1.4
        PoiLayer::Extract => look_of(0x3e85_1eb8, 0x3f66_6666, 0x3ec2_8f5c, 0x3fa6_6666, 0x3fb3_3333),
        // rgb(0.95, 0.56, 0.16), radius 0.35, lift 0.6
        PoiLayer::Door => look_of(0x3f73_3333, 0x3f0f_5c29, 0x3e23_d70a, 0x3eb3_3333, 0x3f19_999a),
        // rgb(0.32, 0.85, 0.92), radius 0.32, lift 0.5
        PoiLayer::Interactable => look_of(0x3ea3_d70a, 0x3f59_999a, 0x3f6b_851f, 0x3ea3_d70a, 0x3f00_0000),
        // rgb(0.93, 0.78, 0.30), radius 0.45, lift 0.7
        PoiLayer::Lock => look_of(0x3f6e_147b, 0x3f47_ae14, 0x3e99_999a, 0x3ee6_6666, 0x3f33_3333),
        // rgb(0.95, 0.26, 0.20), radius 1.0, lift 1.0
        PoiLayer::Hazard => look_of(0x3f73_3333, 0x3e85_1eb8, 0x3e4c_cccd, 0x3f80_0000, 0x3f80_0000),
        // rgb(0.30, 0.85, 0.92), radius 0.45, lift 0.7
        PoiLayer::Switch => look_of(0x3e99_999a, 0x3f59_999a, 0x3f6b_851f, 0x3ee6_6666, 0x3f33_3333),
        // rgb(0.20, 0.85, 0.62), radius 1.2, lift 1.3
        PoiLayer::Transit => look_of(0x3e4c_cccd, 0x3f59_999a, 0x3f1e_b852, 0x3f99_999a, 0x3fa6_6666),
        // rgb(0.66, 0.62, 0.35), radius 0.6, lift 0.8
        PoiLayer::Stationary => look_of(0x3f28_f5c3, 0x3f1e_b852, 0x3eb3_3333, 0x3f19_999a, 0x3f4c_cccd),
        // rgb(0.86, 0.80, 0.55), radius 0.32, lift 0.5
        PoiLayer::LooseLoot => look_of(0x3f5c_28f6, 0x3f4c_cccd, 0x3f0c_cccd, 0x3ea3_d70a, 0x3f00_0000),
        // rgb(0.52, 0.48, 0.96), radius 0.85, lift 1.0
        PoiLayer::Quest => look_of(0x3f05_1eb8, 0x3ef5_c28f, 0x3f75_c28f, 0x3f59_999a, 0x3f80_0000),
        // rgb(0.95, 0.26, 0.20), radius 0.9, lift 1.0
        PoiLayer::Minefield => look_of(0x3f73_3333, 0x3e85_1eb8, 0x3e4c_cccd, 0x3f66_6666, 0x3f80_0000),
        // rgb(0.95, 0.60, 0.15), radius 0.9, lift 1.1
        PoiLayer::SniperZone => look_of(0x3f73_3333, 0x3f19_999a, 0x3e19_999a, 0x3f66_6666, 0x3f8c_cccd),
    }
}

/// The look of a layer; the colours are those of the panel.
pub fn poi_look(l: PoiLayer) -> (r: Look)
    ensures
        r == look(l),
{
    match l {
        PoiLayer::PmcSpawn => make_look(0x3f66_6666, 0x3e75_c28f, 0x3e61_47ae, 0x3f8c_cccd, 0x3f99_999a),
        PoiLayer::ScavSpawn => make_look(0x3f6e_147b, 0x3f4c_cccd, 0x3e75_c28f, 0x3f73_3333, 0x3f80_0000),
        PoiLayer::Boss => make_look(0x3f5c_28f6, 0x3e75_c28f, 0x3f5c_28f6, 0x3fd9_999a, 0x3fe6_6666),
        PoiLayer::Extract => make_look(0x3e85_1eb8, 0x3f66_6666, 0x3ec2_8f5c, 0x3fa6_6666, 0x3fb3_3333),
        PoiLayer::Door => make_look(0x3f73_3333, 0x3f0f_5c29, 0x3e23_d70a, 0x3eb3_3333, 0x3f19_999a),
        PoiLayer::Interactable => make_look(0x3ea3_d70a, 0x3f59_999a, 0x3f6b_851f, 0x3ea3_d70a, 0x3f00_0000),
        PoiLayer::Lock => make_look(0x3f6e_147b, 0x3f47_ae14, 0x3e99_999a, 0x3ee6_6666, 0x3f33_3333),
        PoiLayer::Hazard => make_look(0x3f73_3333, 0x3e85_1eb8, 0x3e4c_cccd, 0x3f80_0000, 0x3f80_0000),
        PoiLayer::Switch => make_look(0x3e99_999a, 0x3f59_999a, 0x3f6b_851f, 0x3ee6_6666, 0x3f33_3333),
        PoiLayer::Transit => make_look(0x3e4c_cccd, 0x3f59_999a, 0x3f1e_b852, 0x3f99_999a, 0x3fa6_6666),
        PoiLayer::Stationary => make_look(0x3f28_f5c3, 0x3f1e_b852, 0x3eb3_3333, 0x3f19_999a, 0x3f4c_cccd),
        PoiLayer::LooseLoot => make_look(0x3f5c_28f6, 0x3f4c_cccd, 0x3f0c_cccd, 0x3ea3_d70a, 0x3f00_0000),
        PoiLayer::Quest => make_look(0x3f05_1eb8, 0x3ef5_c28f, 0x3f75_c28f, 0x3f59_999a, 0x3f80_0000),
        PoiLayer::Minefield => make_look(0x3f73_3333, 0x3e85_1eb8, 0x3e4c_cccd, 0x3f66_6666, 0x3f80_0000),
        PoiLayer::SniperZone => make_look(0x3f73_3333, 0x3f19_999a, 0x3e19_999a, 0x3f66_6666, 0x3f8c_cccd),
    }
}

/// The bits of 0.9.
pub const MIN_PICK_RADIUS: u32 = 0x3f66_6666;

/// The radius in which a click hits a marker: that of the marker, but never so small that it is hard
/// to hit.
pub fn pick_radius(l: PoiLayer) -> (r: F32)
    ensures
        r == look(l).radius.larger(float(MIN_PICK_RADIUS)),
{
    poi_look(l).radius.max(F32 { bits: MIN_PICK_RADIUS })
}

/// The estimated value of a marker in roubles.
#[derive(Clone, Copy, Debug, PartialEq, Eq, Structural)]
pub struct MarkerValue(pub i64);

/// Whether a marker passes the filter by value: the filter is off, or the marker carries no value, or
/// its value is high enough.
pub open spec fn worth(min: i64, v: Option<MarkerValue>) -> bool {
    min <= 0 || match v {
        Some(mv) => mv.0 >= min,
        None => true,
    }
}

/// Whether a marker passes the filter by value.
pub fn value_passes(min: i64, v: Option<MarkerValue>) -> (r: bool)
    ensures
        r == worth(min, v),
{
    min <= 0 || match v {
        Some(mv) => mv.0 >= min,
        None => true,
    }
}

/// The switches of the layer panel.
#[derive(Clone, Copy, Debug, PartialEq, Eq, Structural)]
pub struct LayerToggles {
    pub pmc_spawns: bool,
    pub scav_spawns: bool,
    pub bosses: bool,
    pub extracts: bool,
    pub doors: bool,
    pub interactables: bool,
    pub locks: bool,
    pub hazards: bool,
    pub switches: bool,
    pub transits: bool,
    pub stationary: bool,
    pub loose: bool,
    pub quests: bool,
    pub minefields: bool,
    pub sniper_zones: bool,
    /// The least value that is shown; 0 shows all.
    pub min_value: i64,
    /// Whether what is inactive in the scene is hidden.
    pub hide_inactive: bool,
}

impl LayerToggles {
    /// Whether a layer is switched on.
    pub open spec fn on(self, l: PoiLayer) -> bool {
        match l {
            PoiLayer::PmcSpawn => self.pmc_spawns,
            PoiLayer::ScavSpawn => self.scav_spawns,
            PoiLayer::Boss => self.bosses,
            PoiLayer::Extract => self.extracts,
            PoiLayer::Door => self.doors,
            PoiLayer::Interactable => self.interactables,
            PoiLayer::Lock => self.locks,
            PoiLayer::Hazard => self.hazards,
            PoiLayer::Switch => self.switches,
            PoiLayer::Transit => self.transits,
            PoiLayer::Stationary => self.stationary,
            PoiLayer::LooseLoot => self.loose,
            PoiLayer::Quest => self.quests,
            PoiLayer::Minefield => self.minefields,
            PoiLayer::SniperZone => self.sniper_zones,
        }
    }

    /// Whether a layer is switched on.
    pub fn is_on(&self, l: PoiLayer) -> (r: bool)
        ensures
            r == self.on(l),
    {
        match l {
            PoiLayer::PmcSpawn => self.pmc_spawns,
            PoiLayer::ScavSpawn => self.scav_spawns,
            PoiLayer::Boss => self.bosses,
            PoiLayer::Extract => self.extracts,
            PoiLayer::Door => self.doors,
            PoiLayer::Interactable => self.interactables,
            PoiLayer::Lock => self.locks,
            PoiLayer::Hazard => self.hazards,
            PoiLayer::Switch => self.switches,
            PoiLayer::Transit => self.transits,
            PoiLayer::Stationary => self.stationary,
            PoiLayer::LooseLoot => self.loose,
            PoiLayer::Quest => self.quests,
            PoiLayer::Minefield => self.minefields,
            PoiLayer::SniperZone => self.sniper_zones,
        }
    }

    /// Whether a marker that belongs to no task shows.
    pub open spec fn shows(self, l: PoiLayer, v: Option<MarkerValue>, inactive: bool) -> bool {
        self.on(l) && worth(self.min_value, v) && !(self.hide_inactive && inactive)
    }

    /// Whether a marker that belongs to no task shows: its layer is on, and neither the filter by
    /// value nor the one of the inactive hides it.
    pub fn poi_visible(&self, l: PoiLayer, v: Option<MarkerValue>, inactive: bool) -> (r: bool)
        ensures
            r == self.shows(l, v, inactive),
    {
        self.is_on(l) && value_passes(self.min_value, v) && !(self.hide_inactive && inactive)
    }

    /// Whether what belongs to a task shows, given the tasks that are followed.
    pub open spec fn shows_task(self, active: Seq<Seq<char>>, task: Seq<char>, wall: bool) -> bool {
        self.quests && (active.contains(task) || (!wall && active.len() == 0))
    }

    /// Whether what belongs to a task shows: a wall only while its task is followed; a marker also
    /// while none is, so that tasks can be discovered.
    pub fn quest_visible(&self, active: &Vec<String>, task: &str, wall: bool) -> (r: bool)
        ensures
            r == self.shows_task(texts(active@), task@, wall),
    {
        let followed = holds(active, task);
        self.quests && if wall {
            followed
        } else {
            active.len() == 0 || followed
        }
    }

    /// Whether the outline of a zone of a layer is drawn.
    pub fn outline_visible(&self, l: PoiLayer, active: bool) -> (r: bool)
        ensures
            r == (self.on(l) && !(self.hide_inactive && !active)),
    {
        self.is_on(l) && !(self.hide_inactive && !active)
    }
}

/// Whether a list of texts holds a text.
pub fn holds(v: &Vec<String>, s: &str) -> (r: bool)
    ensures
        r == texts(v@).contains(s@),
{
    let n: usize = v.len();
    let mut i: usize = 0;
    while i < n
        invariant
            i <= n,
            n == v@.len(),
            forall|j: int| 0 <= j < i ==> #[trigger] texts(v@)[j] != s@,
        decreases n - i,
    {
        proof {
            assert(texts(v@)[i as int] == v@[i as int]@);
        }
        if same(v[i].as_str(), s) {
            return true;
        }
        i = i + 1;
    }
    false
}

/// Whether visibility is worked out again: when the switches have changed, or the followed tasks, or
/// the map, whose new markers all start hidden.
pub fn visibility_is_stale(toggles: bool, tasks: bool, epoch: bool) -> (r: bool)
    ensures
        r == (toggles || tasks || epoch),
{
    toggles || tasks || epoch
}

/// Corner `k` of the two triangles over side `i` of an outline with `n` corners. The corners of the
/// wall are, for each corner of the outline, one at its foot and one above it.
pub open spec fn wall_corner(n: nat, i: int, k: int) -> int {
    let a = 2 * i;
    let b = 2 * ((i + 1) % (n as int));
    if k == 0 {
        a
    } else if k == 1 {
        b
    } else if k == 2 || k == 3 {
        a + 1
    } else if k == 4 {
        b
    } else {
        b + 1
    }
}

/// The triangles of the wall around an outline with `n` corners: two over each side, and the last side
/// leads back to the first corner.
pub fn zone_wall_indices(n: u32) -> (r: Vec<u32>)
    requires
        n <= 0x7fff_ffff,
    ensures
        r@.len() == 6 * n,
        forall|j: int| 0 <= j < r@.len() ==> #[trigger] r@[j] == wall_corner(n as nat, j / 6, j % 6),
{
    let mut r: Vec<u32> = Vec::new();
    let mut i: u32 = 0;
    while i < n
        invariant
            i <= n <= 0x7fff_ffff,
            r@.len() == 6 * i,
            forall|j: int|
                0 <= j < r@.len() ==> #[trigger] r@[j] == wall_corner(n as nat, j / 6, j % 6),
        decreases n - i,
    {
        let next: u32 = if i + 1 == n {
            0
        } else {
            i + 1
        };
        proof {
            if i + 1 == n {
                assert((i + 1) % (n as int) == 0);
            } else {
                vstd::arithmetic::div_mod::lemma_small_mod((i + 1) as nat, n as nat);
            }
        }
        let a: u32 = 2 * i;
        let b: u32 = 2 * next;
        r.push(a);
        r.push(b);
        r.push(a + 1);
        r.push(a + 1);
        r.push(b);
        r.push(b + 1);
        i = i + 1;
    }
    r
}

/// Every corner that a wall's triangles name is one of its corners.
pub proof fn wall_corners_exist(n: nat, i: int, k: int)
    requires
        0 <= i < n,
        0 <= k < 6,
    ensures
        0 <= wall_corner(n, i, k) < 2 * n,
{
    assert(0 <= (i + 1) % (n as int) < n);
}

/// With the filter by value off, no marker is hidden for its value; under an active one a marker that
/// carries no price is hidden, and one that carries no value at all is not.
pub proof fn value_filter(min: i64, v: Option<MarkerValue>)
    ensures
        min <= 0 ==> worth(min, v),
        min > 0 ==> !worth(min, Some(MarkerValue(0))),
        worth(min, None),
{
}

} // verus!
