//! The records that markers are made from, as the map's data files give them.
//!
//! Texts that only the program around this library can style stand beside the values they come from:
//! a prettified name, a title, an amount of money, a percentage.
use vstd::prelude::*;
use crate::f32bits::F32;
use crate::gpu::materials::V3;
use crate::text::pieces;

verus! {

/// An amount of roubles, and how it is written.
#[derive(Debug)]
pub struct Price {
    pub roubles: i64,
    pub text: String,
}

/// A share of one, and how it is written in percent.
#[derive(Debug)]
pub struct Share {
    pub value: F32,
    pub percent: String,
}

/// A word, and how it is written as a title.
#[derive(Debug)]
pub struct Word {
    pub word: String,
    pub title: String,
}

/// A word with its title, as a value to speak of.
#[verifier::ext_equal]
pub struct Titled {
    pub word: Seq<char>,
    pub title: Seq<char>,
}

/// What a list of words stands for.
pub open spec fn titles(v: Seq<Word>) -> Seq<Titled> {
    Seq::new(v.len(), |i: int| Titled { word: v[i].word@, title: v[i].title@ })
}

/// The words of a list.
pub open spec fn words_of(v: Seq<Word>) -> Seq<Seq<char>> {
    Seq::new(v.len(), |i: int| v[i].word@)
}

/// Add copies of words to a list.
pub fn append_words(to: &mut Vec<Word>, v: &Vec<Word>)
    ensures
        titles(final(to)@) == titles(old(to)@) + titles(v@),
{
    let ghost before = titles(to@);
    let n: usize = v.len();
    let mut i: usize = 0;
    proof {
        assert(before + titles(v@).take(0) =~= before);
    }
    while i < n
        invariant
            i <= n,
            n == v@.len(),
            titles(to@) == before + titles(v@).take(i as int),
        decreases n - i,
    {
        let ghost was = to@;
        to.push(Word { word: v[i].word.as_str().to_owned(), title: v[i].title.as_str().to_owned() });
        proof {
            assert(titles(to@) =~= titles(was).push(titles(v@)[i as int]));
            assert(before + titles(v@).take(i + 1) =~= (before + titles(v@).take(i as int)).push(
                titles(v@)[i as int],
            ));
        }
        i = i + 1;
    }
    proof {
        assert(titles(v@).take(n as int) =~= titles(v@));
    }
}

/// Who may use an extract: one faction, or several joined by a plus.
#[derive(Debug)]
pub struct Faction {
    pub text: String,
    /// The words between the pluses.
    pub parts: Vec<Word>,
}

impl Faction {
    /// The words are those of the text.
    pub open spec fn valid(self) -> bool {
        words_of(self.parts@) == pieces(self.text@, '+')
    }
}

/// A group of escorts.
#[derive(Debug)]
pub struct Escort {
    /// The name, with spaces for dashes and as a title.
    pub who: String,
    pub count: Option<u32>,
}

/// A named zone in which a boss may spawn.
#[derive(Debug)]
pub struct BossLoc {
    pub name: String,
    pub chance: Option<Share>,
}

/// A spawn: of players, scavs or a boss.
#[derive(Debug)]
pub struct Node {
    pub pos: V3,
    /// The size of the group.
    pub n: Option<u32>,
    /// The expected value of the loot within reach.
    pub ev: Option<Price>,
    /// The boss's key as a title.
    pub boss_title: Option<String>,
    /// The chance of the boss in percent.
    pub chance: Option<String>,
    /// The boss's name.
    pub name: Option<String>,
    /// The delay of the spawn in seconds.
    pub st: Option<i64>,
    pub escorts: Vec<Escort>,
    pub locs: Vec<BossLoc>,
}

/// A key.
#[derive(Debug)]
pub struct Key {
    /// The full name.
    pub n: String,
    /// The short name.
    pub s: String,
    /// 1 for a keycard.
    pub card: i64,
    pub pr: Option<Price>,
}

/// Something locked, and the keys that open it.
#[derive(Debug)]
pub struct Lock {
    pub pos: V3,
    /// What is locked, as a title.
    pub lt_title: String,
    /// 1 where it needs power.
    pub pw: i64,
    pub keys: Vec<Key>,
}

/// A switch or lever.
#[derive(Debug)]
pub struct Switch {
    pub pos: V3,
    pub name: String,
    pub st: String,
}

/// A way to another map.
#[derive(Debug)]
pub struct Transit {
    pub pos: V3,
    /// The key of the other map, with spaces for dashes and as a title.
    pub to_title: String,
    pub desc: String,
    pub cond: String,
}

/// A hazard.
#[derive(Debug)]
pub struct Hazard {
    pub pos: V3,
    /// The kind of hazard, as a title.
    pub ht_title: String,
    pub name: String,
    /// Whether a typed hazard zone covers the point.
    pub covered: bool,
}

/// A mounted weapon.
#[derive(Debug)]
pub struct Stationary {
    pub pos: V3,
    pub name: String,
}

/// An extract of the community's list.
#[derive(Debug)]
pub struct ExtractDev {
    pub pos: V3,
    pub name: String,
    pub fac: Faction,
    /// The squares of the distances to the earlier extracts of the list.
    pub dist2: Vec<F32>,
}

/// A loose item of value.
#[derive(Debug)]
pub struct Loose {
    pub pos: V3,
    /// The short name.
    pub s: String,
    /// The full name.
    pub n: String,
    pub pr: Option<Price>,
    /// The squares of the distances to the typed loot points.
    pub typed_dist2: Vec<F32>,
}

/// What the community's data say of one map.
#[derive(Debug)]
pub struct MapNodes {
    pub pmc_nodes: Vec<Node>,
    pub scav_nodes: Vec<Node>,
    pub boss_nodes: Vec<Node>,
    pub locks: Vec<Lock>,
    pub switches: Vec<Switch>,
    pub transits: Vec<Transit>,
    pub hazards: Vec<Hazard>,
    pub stationary: Vec<Stationary>,
    pub extracts_dev: Vec<ExtractDev>,
    pub loose: Vec<Loose>,
}

/// An extent, and how it is written.
#[derive(Debug)]
pub struct Extent {
    pub w: F32,
    pub d: F32,
    pub text: String,
}

/// A typed extract.
#[derive(Debug)]
pub struct GdExfil {
    pub pos: V3,
    pub name: String,
    pub faction: Faction,
    pub outline: Vec<V3>,
    pub active: bool,
    /// How far each extract of the community's list is, on the ground.
    pub dev_dist: Vec<F32>,
}

/// A typed zone.
#[derive(Debug)]
pub struct GdZone {
    pub pos: V3,
    pub name: Option<String>,
    /// The name, prettified.
    pub pretty: Option<String>,
    pub kind: Option<String>,
    pub outline: Vec<V3>,
    /// The extent before the outline was subdivided.
    pub extent: Option<Extent>,
    /// The lengths of the first two sides of the outline.
    pub sides: Option<Extent>,
    pub active: bool,
}

/// A typed door or trunk.
#[derive(Debug)]
pub struct GdDoor {
    pub pos: V3,
    pub key_id: Option<String>,
    pub state: Option<Word>,
    pub kind: String,
    /// The name, prettified.
    pub pretty: Option<String>,
    pub active: bool,
    /// The square of the distance to each lock of the community's list.
    pub lock_dist: Vec<F32>,
}

/// A typed mounted weapon.
#[derive(Debug)]
pub struct GdStationary {
    pub pos: V3,
    /// The name, prettified.
    pub pretty: String,
    pub active: bool,
}

/// An item that a loot point may hold.
#[derive(Debug)]
pub struct GdLooseItem {
    pub tpl: Option<String>,
    pub n: Option<String>,
    pub s: Option<String>,
    pub pr: Option<Price>,
    /// 1 for a category.
    pub cat: i64,
}

/// A typed loot point.
#[derive(Debug)]
pub struct GdLoose {
    pub pos: V3,
    /// The name, prettified.
    pub pretty: Option<String>,
    pub n: u32,
    pub active: bool,
    pub items: Vec<GdLooseItem>,
    pub items_src: Option<String>,
}

/// The typed game data of a map.
#[derive(Debug)]
pub struct GameData {
    pub draped: bool,
    pub exfils: Vec<GdExfil>,
    pub minefields: Vec<GdZone>,
    pub sniper_zones: Vec<GdZone>,
    pub doors: Vec<GdDoor>,
    pub stationary: Vec<GdStationary>,
    pub loose_points: Vec<GdLoose>,
    pub mines_directional: Vec<GdZone>,
    pub quest_triggers: Vec<GdZone>,
    pub trader_zones: Vec<GdZone>,
    pub transit_points: Vec<GdZone>,
}

/// An object that was classified by its name.
#[derive(Debug)]
pub struct Poi {
    pub p: V3,
    pub name: String,
    /// The name, prettified.
    pub pretty: String,
    /// The squares of the distances to the earlier objects of the layer.
    pub dist2: Vec<F32>,
}

/// The objects that were classified by their names; none where a layer is missing.
#[derive(Debug)]
pub struct Semantics {
    pub extract: Option<Vec<Poi>>,
    pub door: Option<Vec<Poi>>,
    pub loot: Option<Vec<Poi>>,
}

/// A zone of a task's objective.
#[derive(Debug)]
pub struct QuestZone {
    pub map: String,
    pub pos: Option<V3>,
    pub outline: Vec<V3>,
    pub top: F32,
}

/// An objective of a task.
#[derive(Debug)]
pub struct QuestObjective {
    pub desc: String,
    pub zones: Vec<QuestZone>,
}

/// A task.
#[derive(Debug)]
pub struct QuestTask {
    pub id: String,
    pub name: String,
    pub trader: String,
    pub min_level: Option<u32>,
    pub kappa: bool,
    pub lk: bool,
    pub requires_tasks: Vec<String>,
    pub objectives: Vec<QuestObjective>,
}

/// An instance in the map's geometry.
#[derive(Debug)]
pub struct GeometryItem {
    pub pos: V3,
    /// The name of its mesh; none where the mesh does not exist.
    pub mesh: Option<String>,
    /// How far away each earlier instance is: the larger of the distances along the two ground axes.
    pub away: Vec<F32>,
}

} // verus!
