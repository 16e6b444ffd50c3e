//! The cards that markers show.
use vstd::prelude::*;
use vstd::string::*;
use crate::compose::{
    add_line, after_prefix, contains_char, filled_or, is_blank, join2, join3, join_texts, no_lines, nonempty_or,
};
use crate::compose::{joined, line_if, maybe_text, rest_after, some_text, text_or};
use crate::f32bits::{float, F32, ONE};
use crate::poi::layer::{color_of, look, poi_look, Color, PoiLayer};
use crate::poi::records::{
    BossLoc, Escort, Extent, GdDoor, GdExfil, GdLoose, GdLooseItem, GdStationary, GdZone, Hazard, Key, Lock, Loose,
    Node, Poi, Price, QuestObjective, QuestTask, Stationary, Switch, Transit, Word,
};
use crate::poi::records::{titles, Titled};
use crate::text::{decimal, decimal_of, same, texts};

verus! {

/// The card of a marker.
#[derive(Debug)]
pub struct MarkerInfo {
    pub title: String,
    pub subtitle: String,
    pub detail: Vec<String>,
    pub accent: Color,
}

/// A card, as a value to speak of.
#[verifier::ext_equal]
pub struct Card {
    pub title: Seq<char>,
    pub subtitle: Seq<char>,
    pub detail: Seq<Seq<char>>,
    pub accent: Color,
}

impl View for MarkerInfo {
    type V = Card;

    open spec fn view(&self) -> Card {
        Card {
            title: self.title@,
            subtitle: self.subtitle@,
            detail: texts(self.detail@),
            accent: self.accent,
        }
    }
}

pub(crate) fn make_color(r: u32, g: u32, b: u32) -> (c: Color)
    ensures
        c == color_of(r, g, b),
{
    Color { r: F32 { bits: r }, g: F32 { bits: g }, b: F32 { bits: b } }
}

/// The accent of keycard locks: rgb(0.72, 0.45, 0.92).
pub open spec fn keycard_color() -> Color {
    color_of(0x3f38_51ec, 0x3ee6_6666, 0x3f6b_851f)
}

/// The line that says that something is off in the scene.
pub open spec fn inactive_line(active: bool) -> Seq<Seq<char>> {
    line_if(!active, "Inactive in scene"@)
}

fn add_inactive(detail: &mut Vec<String>, active: bool)
    ensures
        texts(final(detail)@) == texts(old(detail)@) + inactive_line(active),
{
    if !active {
        add_line(detail, "Inactive in scene".to_owned());
    } else {
        proof {
            assert(texts(detail@) + inactive_line(active) =~= texts(detail@));
        }
    }
}

/// Whether an extent is worth a line: more than a metre both ways.
pub open spec fn wide(e: Option<Extent>) -> bool {
    e is Some && float(ONE).lt(e->0.w) && float(ONE).lt(e->0.d)
}

fn is_wide(e: &Option<Extent>) -> (r: bool)
    ensures
        r == wide(*e),
{
    match e {
        Some(x) => (F32 { bits: ONE }).less(x.w) && (F32 { bits: ONE }).less(x.d),
        None => false,
    }
}

/// The line on the extent of a zone: the one from before the outline was subdivided, else the sides
/// of an outline with at least three corners.
pub open spec fn extent_lines(z: GdZone) -> Seq<Seq<char>> {
    if wide(z.extent) {
        seq![z.extent->0.text@]
    } else {
        line_if(z.outline@.len() >= 3 && wide(z.sides), z.sides->0.text@)
    }
}

/// The line on the extent of a zone.
pub fn zone_extent_line(z: &GdZone) -> (r: Option<String>)
    ensures
        match r {
            Some(s) => extent_lines(*z) == seq![s@],
            None => extent_lines(*z).len() == 0,
        },
{
    if is_wide(&z.extent) {
        if let Some(x) = &z.extent {
            return Some(x.text.as_str().to_owned());
        }
    }
    if z.outline.len() >= 3 && is_wide(&z.sides) {
        if let Some(x) = &z.sides {
            return Some(x.text.as_str().to_owned());
        }
    }
    None
}

fn add_extent(detail: &mut Vec<String>, z: &GdZone)
    ensures
        texts(final(detail)@) == texts(old(detail)@) + extent_lines(*z),
{
    match zone_extent_line(z) {
        Some(s) => {
            add_line(detail, s);
        },
        None => {
            proof {
                assert(texts(detail@) + extent_lines(*z) =~= texts(detail@));
            }
        },
    }
}

/// The label of a faction.
pub open spec fn label_of(word: Seq<char>, title: Seq<char>) -> Seq<char> {
    if word == "pmc"@ {
        "PMC"@
    } else if word == "scav"@ {
        "Scav"@
    } else if word == "shared"@ {
        "All"@
    } else if word == "secret"@ {
        "Secret"@
    } else if word.contains('+') {
        "All"@
    } else {
        title
    }
}

/// The label of a faction; several joined by a plus are everyone.
pub fn faction_label(word: &str, title: &str) -> (r: String)
    ensures
        r@ == label_of(word@, title@),
{
    if same(word, "pmc") {
        "PMC".to_owned()
    } else if same(word, "scav") {
        "Scav".to_owned()
    } else if same(word, "shared") {
        "All".to_owned()
    } else if same(word, "secret") {
        "Secret".to_owned()
    } else if contains_char(word, '+') {
        "All".to_owned()
    } else {
        title.to_owned()
    }
}

/// The colour of an extract by who may use it.
pub open spec fn faction_color(fac: Seq<char>) -> Color {
    if fac == "scav"@ {
        // rgb(0.95, 0.45, 0.10)
        color_of(0x3f73_3333, 0x3ee6_6666, 0x3dcc_cccd)
    } else if fac == "shared"@ {
        // rgb(0.78, 0.95, 0.82)
        color_of(0x3f47_ae14, 0x3f73_3333, 0x3f51_eb85)
    } else if fac == "secret"@ {
        // rgb(0.85, 0.30, 0.90)
        color_of(0x3f59_999a, 0x3e99_999a, 0x3f66_6666)
    } else if fac.contains('+') {
        color_of(0x3f47_ae14, 0x3f73_3333, 0x3f51_eb85)
    } else {
        look(PoiLayer::Extract).color
    }
}

/// The colour of an extract: amber for scavs, pale for everyone, violet for secret ones, and the
/// layer's green for the rest.
pub fn extract_faction_color(fac: &str) -> (r: Color)
    ensures
        r == faction_color(fac@),
{
    if same(fac, "scav") {
        make_color(0x3f73_3333, 0x3ee6_6666, 0x3dcc_cccd)
    } else if same(fac, "shared") {
        make_color(0x3f47_ae14, 0x3f73_3333, 0x3f51_eb85)
    } else if same(fac, "secret") {
        make_color(0x3f59_999a, 0x3e99_999a, 0x3f66_6666)
    } else if contains_char(fac, '+') {
        make_color(0x3f47_ae14, 0x3f73_3333, 0x3f51_eb85)
    } else {
        poi_look(PoiLayer::Extract).color
    }
}

/// The labels of the words of a faction.
pub open spec fn part_labels(parts: Seq<Titled>) -> Seq<Seq<char>> {
    Seq::new(parts.len(), |i: int| label_of(parts[i].word, parts[i].title))
}

/// The title of the first word.
pub open spec fn first_title(parts: Seq<Titled>) -> Seq<char> {
    if parts.len() > 0 {
        parts[0].title
    } else {
        seq![]
    }
}

fn first_title_of(parts: &Vec<Word>) -> (r: String)
    ensures
        r@ == first_title(titles(parts@)),
{
    if parts.len() > 0 {
        parts[0].title.as_str().to_owned()
    } else {
        let r = String::new();
        proof {
            assert(r@ =~= Seq::<char>::empty());
        }
        r
    }
}

/// The card of an extract.
pub open spec fn extract_card(name: Seq<char>, fac: Seq<char>, parts: Seq<Titled>) -> Card {
    let shown = if name.len() > 0 {
        name
    } else {
        "Extract"@
    };
    Card {
        title: if fac.len() == 0 {
            shown
        } else {
            shown + "  ["@ + label_of(fac, first_title(parts)) + "]"@
        },
        subtitle: "Extract"@,
        detail: seq![
            "Faction: "@ + if fac.contains('+') {
                joined(part_labels(parts), " + "@)
            } else {
                label_of(fac, first_title(parts))
            },
        ],
        accent: faction_color(fac),
    }
}

fn part_labels_of(parts: &Vec<Word>) -> (r: Vec<String>)
    ensures
        texts(r@) == part_labels(titles(parts@)),
{
    let mut r: Vec<String> = Vec::new();
    let n: usize = parts.len();
    let mut i: usize = 0;
    while i < n
        invariant
            i <= n,
            n == parts@.len(),
            r@.len() == i,
            forall|j: int| 0 <= j < i ==> (#[trigger] r@[j])@ == part_labels(titles(parts@))[j],
        decreases n - i,
    {
        r.push(faction_label(parts[i].word.as_str(), parts[i].title.as_str()));
        i = i + 1;
    }
    proof {
        assert(texts(r@) =~= part_labels(titles(parts@)));
    }
    r
}

/// The card of an extract: who may use it stands in the title, and in full in the detail.
pub fn extract_dev_info(name: &str, fac: &str, parts: &Vec<Word>) -> (r: MarkerInfo)
    ensures
        r@ == extract_card(name@, fac@, titles(parts@)),
{
    let shown = nonempty_or(name, "Extract");
    let title_word = first_title_of(parts);
    let label = faction_label(fac, title_word.as_str());
    let title = if is_blank(fac) {
        shown
    } else {
        let mut t = join3(shown.as_str(), "  [", label.as_str());
        t.append("]");
        t
    };
    let line = if contains_char(fac, '+') {
        let labels = part_labels_of(parts);
        join_texts(&labels, " + ")
    } else {
        label
    };
    let mut detail = no_lines();
    add_line(&mut detail, join2("Faction: ", line.as_str()));
    let r = MarkerInfo {
        title,
        subtitle: "Extract".to_owned(),
        detail,
        accent: extract_faction_color(fac),
    };
    proof {
        assert(r@.detail =~= extract_card(name@, fac@, titles(parts@)).detail);
    }
    r
}

/// The card of a typed extract, under the name that the community has for it where there is one.
pub open spec fn exfil_card(e: GdExfil, friendly: Option<Seq<char>>) -> Card {
    let base = extract_card(text_or(friendly, e.name@), e.faction.text@, titles(e.faction.parts@));
    Card {
        detail: base.detail + line_if(
            friendly is Some && friendly->0 != e.name@ && e.name@.len() > 0,
            "Scene id: "@ + e.name@,
        ) + inactive_line(e.active) + seq!["Source: game files"@],
        ..base
    }
}

/// The card of a typed extract.
pub fn gd_exfil_info(e: &GdExfil, friendly: Option<&str>) -> (r: MarkerInfo)
    ensures
        r@ == exfil_card(
            *e,
            match friendly {
                Some(f) => Some(f@),
                None => None,
            },
        ),
{
    let display: &str = match friendly {
        Some(f) => f,
        None => e.name.as_str(),
    };
    let mut info = extract_dev_info(display, e.faction.text.as_str(), &e.faction.parts);
    let ghost base = info@;
    let renamed = match friendly {
        Some(f) => !same(f, e.name.as_str()) && !is_blank(e.name.as_str()),
        None => false,
    };
    if renamed {
        add_line(&mut info.detail, join2("Scene id: ", e.name.as_str()));
    }
    proof {
        assert(texts(info.detail@) =~= base.detail + line_if(renamed, "Scene id: "@ + e.name@));
    }
    add_inactive(&mut info.detail, e.active);
    add_line(&mut info.detail, "Source: game files".to_owned());
    info
}

/// The card of a minefield or a sniper zone.
pub open spec fn zone_card(l: PoiLayer, z: GdZone) -> Card {
    Card {
        title: if l == PoiLayer::SniperZone {
            "Sniper zone"@
        } else {
            "Minefield"@
        },
        subtitle: "Hazard \u{00B7} game files"@,
        detail: extent_lines(z) + line_if(some_text(z.pretty) is Some, z.pretty->0@) + inactive_line(
            z.active,
        ),
        accent: look(l).color,
    }
}

/// The card of a minefield or a sniper zone.
pub fn gd_zone_info(l: PoiLayer, z: &GdZone) -> (r: MarkerInfo)
    ensures
        r@ == zone_card(l, *z),
{
    let mut detail = no_lines();
    add_extent(&mut detail, z);
    let ghost before = texts(detail@);
    let named = match &z.pretty {
        Some(s) => !is_blank(s.as_str()),
        None => false,
    };
    if named {
        if let Some(s) = &z.pretty {
            add_line(&mut detail, s.as_str().to_owned());
        }
    }
    proof {
        assert(texts(detail@) =~= before + line_if(some_text(z.pretty) is Some, z.pretty->0@));
    }
    add_inactive(&mut detail, z.active);
    let title = match l {
        PoiLayer::SniperZone => "Sniper zone".to_owned(),
        _ => "Minefield".to_owned(),
    };
    let r = MarkerInfo {
        title,
        subtitle: "Hazard \u{00B7} game files".to_owned(),
        detail,
        accent: poi_look(l).color,
    };
    proof {
        assert(r@.detail =~= zone_card(l, *z).detail);
    }
    r
}

/// The card of a directional mine.
pub open spec fn mine_card(z: GdZone) -> Card {
    Card {
        title: match some_text(z.kind) {
            Some(k) => k + " directional mine"@,
            None => "Directional mine"@,
        },
        subtitle: "Hazard \u{00B7} game files"@,
        detail: extent_lines(z) + inactive_line(z.active) + seq!["game files"@],
        accent: look(PoiLayer::Hazard).color,
    }
}

/// The card of a directional mine, titled by its model.
pub fn gd_mine_info(z: &GdZone) -> (r: MarkerInfo)
    ensures
        r@ == mine_card(*z),
{
    let title = match &z.kind {
        Some(k) => if is_blank(k.as_str()) {
            "Directional mine".to_owned()
        } else {
            join2(k.as_str(), " directional mine")
        },
        None => "Directional mine".to_owned(),
    };
    let mut detail = no_lines();
    add_extent(&mut detail, z);
    add_inactive(&mut detail, z.active);
    add_line(&mut detail, "game files".to_owned());
    let r = MarkerInfo {
        title,
        subtitle: "Hazard \u{00B7} game files".to_owned(),
        detail,
        accent: poi_look(PoiLayer::Hazard).color,
    };
    proof {
        assert(r@.detail =~= mine_card(*z).detail);
    }
    r
}

/// The line on the kind of a trigger.
pub open spec fn trigger_line(kind: Option<Seq<char>>) -> Seq<char> {
    if kind == Some("place_item"@) {
        "Place-item zone"@
    } else if kind == Some("visit"@) {
        "Visit / exploration zone"@
    } else if kind == Some("flare"@) {
        "Flare-signal zone"@
    } else {
        "Quest trigger"@
    }
}

fn trigger_line_of(kind: &Option<String>) -> (r: String)
    ensures
        r@ == trigger_line(maybe_text(*kind)),
{
    match kind {
        Some(k) => if same(k.as_str(), "place_item") {
            "Place-item zone".to_owned()
        } else if same(k.as_str(), "visit") {
            "Visit / exploration zone".to_owned()
        } else if same(k.as_str(), "flare") {
            "Flare-signal zone".to_owned()
        } else {
            "Quest trigger".to_owned()
        },
        None => "Quest trigger".to_owned(),
    }
}

/// The card of a trigger of a task.
pub open spec fn trigger_card(z: GdZone) -> Card {
    Card {
        title: text_or(some_text(z.name), "Quest zone"@),
        subtitle: "Quest zone \u{00B7} game files"@,
        detail: seq![trigger_line(maybe_text(z.kind))] + extent_lines(z) + inactive_line(z.active),
        accent: look(PoiLayer::Quest).color,
    }
}

/// The card of a trigger of a task, titled by the zone's own id.
pub fn gd_trigger_info(z: &GdZone) -> (r: MarkerInfo)
    ensures
        r@ == trigger_card(*z),
{
    let mut detail = no_lines();
    add_line(&mut detail, trigger_line_of(&z.kind));
    add_extent(&mut detail, z);
    add_inactive(&mut detail, z.active);
    let r = MarkerInfo {
        title: filled_or(&z.name, "Quest zone"),
        subtitle: "Quest zone \u{00B7} game files".to_owned(),
        detail,
        accent: poi_look(PoiLayer::Quest).color,
    };
    proof {
        assert(r@.detail =~= trigger_card(*z).detail);
    }
    r
}

/// The card of a special compound zone.
pub open spec fn trader_card(z: GdZone) -> Card {
    Card {
        title: text_or(some_text(z.pretty), "Zone"@),
        subtitle: "Zone \u{00B7} game files"@,
        detail: extent_lines(z) + inactive_line(z.active),
        accent: look(PoiLayer::Hazard).color,
    }
}

/// The card of a special compound zone.
pub fn gd_trader_info(z: &GdZone) -> (r: MarkerInfo)
    ensures
        r@ == trader_card(*z),
{
    let mut detail = no_lines();
    add_extent(&mut detail, z);
    add_inactive(&mut detail, z.active);
    let r = MarkerInfo {
        title: filled_or(&z.pretty, "Zone"),
        subtitle: "Zone \u{00B7} game files".to_owned(),
        detail,
        accent: poi_look(PoiLayer::Hazard).color,
    };
    proof {
        assert(r@.detail =~= trader_card(*z).detail);
    }
    r
}

/// The card of a typed door or trunk, given the name of the key that the community knows for it.
pub open spec fn door_card(d: GdDoor, dev_key: Option<Seq<char>>) -> Card {
    let kind = if d.kind@ == "trunk"@ {
        "Trunk"@
    } else {
        "Door"@
    };
    Card {
        title: match dev_key {
            Some(k) => k,
            None => text_or(some_text(d.pretty), kind),
        },
        subtitle: kind + " \u{00B7} game files"@,
        detail: line_if(some_text(d.key_id) is Some, "Key: "@ + d.key_id->0@) + line_if(
            some_text(d.key_id) is Some && dev_key is Some,
            "= "@ + dev_key->0 + " (tarkov.dev)"@,
        ) + line_if(d.state is Some, "State: "@ + d.state->0.title@) + inactive_line(d.active),
        accent: if d.state is Some && d.state->0.word@ == "locked"@ {
            look(PoiLayer::Lock).color
        } else {
            look(PoiLayer::Door).color
        },
    }
}

/// The card of a typed door or trunk; a locked one reads in the colour of locks.
pub fn gd_door_info(d: &GdDoor, dev_key: Option<&str>) -> (r: MarkerInfo)
    ensures
        r@ == door_card(
            *d,
            match dev_key {
                Some(k) => Some(k@),
                None => None,
            },
        ),
{
    let kind: &str = if same(d.kind.as_str(), "trunk") {
        "Trunk"
    } else {
        "Door"
    };
    let title = match dev_key {
        Some(k) => k.to_owned(),
        None => filled_or(&d.pretty, kind),
    };
    let mut detail = no_lines();
    let keyed = match &d.key_id {
        Some(k) => !is_blank(k.as_str()),
        None => false,
    };
    if keyed {
        if let Some(k) = &d.key_id {
            add_line(&mut detail, join2("Key: ", k.as_str()));
        }
        if let Some(n) = dev_key {
            add_line(&mut detail, join3("= ", n, " (tarkov.dev)"));
        }
    }
    if let Some(st) = &d.state {
        add_line(&mut detail, join2("State: ", st.title.as_str()));
    }
    add_inactive(&mut detail, d.active);
    let locked = match &d.state {
        Some(st) => same(st.word.as_str(), "locked"),
        None => false,
    };
    let r = MarkerInfo {
        title,
        subtitle: join2(kind, " \u{00B7} game files"),
        detail,
        accent: if locked {
            poi_look(PoiLayer::Lock).color
        } else {
            poi_look(PoiLayer::Door).color
        },
    };
    let ghost known: Option<Seq<char>> = match dev_key {
        Some(k) => Some(k@),
        None => None,
    };
    proof {
        assert(r@.detail =~= door_card(*d, known).detail);
    }
    r
}

/// The tags of a task.
pub open spec fn quest_tags(t: QuestTask) -> Seq<Seq<char>> {
    line_if(t.min_level is Some && t.min_level->0 > 0, "Lvl "@ + decimal(t.min_level->0 as nat)) + line_if(
        t.kappa,
        "Kappa"@,
    )
}

/// The card of an objective of a task.
pub open spec fn quest_card(t: QuestTask, o: QuestObjective) -> Card {
    Card {
        title: if t.name@.len() > 0 {
            t.name@
        } else {
            "Task"@
        },
        subtitle: if t.trader@.len() > 0 {
            "Task \u{00B7} "@ + t.trader@
        } else {
            "Task"@
        },
        detail: line_if(o.desc@.len() > 0, o.desc@) + line_if(
            quest_tags(t).len() > 0,
            joined(quest_tags(t), "  \u{00B7}  "@),
        ),
        accent: look(PoiLayer::Quest).color,
    }
}

/// The card of an objective of a task.
pub fn quest_info(t: &QuestTask, o: &QuestObjective) -> (r: MarkerInfo)
    ensures
        r@ == quest_card(*t, *o),
{
    let mut detail = no_lines();
    if !is_blank(o.desc.as_str()) {
        add_line(&mut detail, o.desc.as_str().to_owned());
    }
    let mut tags = no_lines();
    if let Some(lv) = t.min_level {
        if lv > 0 {
            let level = decimal_of(lv as u64);
            add_line(&mut tags, join2("Lvl ", level.as_str()));
        }
    }
    if t.kappa {
        add_line(&mut tags, "Kappa".to_owned());
    }
    proof {
        assert(texts(tags@) =~= quest_tags(*t));
        assert(texts(tags@).len() == tags@.len());
    }
    if tags.len() > 0 {
        add_line(&mut detail, join_texts(&tags, "  \u{00B7}  "));
    }
    let r = MarkerInfo {
        title: nonempty_or(t.name.as_str(), "Task"),
        subtitle: if is_blank(t.trader.as_str()) {
            "Task".to_owned()
        } else {
            join2("Task \u{00B7} ", t.trader.as_str())
        },
        detail,
        accent: poi_look(PoiLayer::Quest).color,
    };
    proof {
        assert(r@.detail =~= quest_card(*t, *o).detail);
    }
    r
}

/// The line on the size of a group.
pub open spec fn group_lines(nd: Node) -> Seq<Seq<char>> {
    line_if(nd.n is Some, "Group \u{00D7}"@ + decimal(nd.n->0 as nat))
}

/// The line on the loot within reach.
pub open spec fn loot_lines(nd: Node) -> Seq<Seq<char>> {
    line_if(nd.ev is Some, "Est. loot  "@ + nd.ev->0.text@)
}

fn add_group(detail: &mut Vec<String>, nd: &Node)
    ensures
        texts(final(detail)@) == texts(old(detail)@) + group_lines(*nd),
{
    match nd.n {
        Some(n) => {
            let count = decimal_of(n as u64);
            add_line(detail, join2("Group \u{00D7}", count.as_str()));
        },
        None => {
            proof {
                assert(texts(detail@) + group_lines(*nd) =~= texts(detail@));
            }
        },
    }
}

fn add_loot(detail: &mut Vec<String>, nd: &Node)
    ensures
        texts(final(detail)@) == texts(old(detail)@) + loot_lines(*nd),
{
    match &nd.ev {
        Some(p) => {
            add_line(detail, join2("Est. loot  ", p.text.as_str()));
        },
        None => {
            proof {
                assert(texts(detail@) + loot_lines(*nd) =~= texts(detail@));
            }
        },
    }
}

/// How a group of escorts is listed.
pub open spec fn escort_text(e: Escort) -> Seq<char> {
    if e.count is Some && e.count->0 > 0 {
        decimal(e.count->0 as nat) + "\u{00D7} "@ + e.who@
    } else {
        e.who@
    }
}

/// How a zone of a boss is listed: with its chance where that is neither none nor certain.
pub open spec fn loc_text(l: BossLoc) -> Seq<char> {
    if l.chance is Some && float(0).lt(l.chance->0.value) && l.chance->0.value.lt(float(ONE)) {
        l.name@ + " "@ + l.chance->0.percent@ + "%"@
    } else {
        l.name@
    }
}

fn escort_texts(v: &Vec<Escort>) -> (r: Vec<String>)
    ensures
        texts(r@) == Seq::new(v@.len(), |i: int| escort_text(v@[i])),
{
    let mut r: Vec<String> = Vec::new();
    let n: usize = v.len();
    let mut i: usize = 0;
    while i < n
        invariant
            i <= n,
            n == v@.len(),
            r@.len() == i,
            forall|j: int| 0 <= j < i ==> (#[trigger] r@[j])@ == escort_text(v@[j]),
        decreases n - i,
    {
        let e = &v[i];
        let s = match e.count {
            Some(c) => if c > 0 {
                let count = decimal_of(c as u64);
                join3(count.as_str(), "\u{00D7} ", e.who.as_str())
            } else {
                e.who.as_str().to_owned()
            },
            None => e.who.as_str().to_owned(),
        };
        r.push(s);
        i = i + 1;
    }
    proof {
        assert(texts(r@) =~= Seq::new(v@.len(), |i: int| escort_text(v@[i])));
    }
    r
}

fn loc_texts(v: &Vec<BossLoc>) -> (r: Vec<String>)
    ensures
        texts(r@) == Seq::new(v@.len(), |i: int| loc_text(v@[i])),
{
    let mut r: Vec<String> = Vec::new();
    let n: usize = v.len();
    let mut i: usize = 0;
    while i < n
        invariant
            i <= n,
            n == v@.len(),
            r@.len() == i,
            forall|j: int| 0 <= j < i ==> (#[trigger] r@[j])@ == loc_text(v@[j]),
        decreases n - i,
    {
        let l = &v[i];
        let s = match &l.chance {
            Some(c) => if (F32 { bits: 0 }).less(c.value) && c.value.less(F32 { bits: ONE }) {
                let mut t = join3(l.name.as_str(), " ", c.percent.as_str());
                t.append("%");
                t
            } else {
                l.name.as_str().to_owned()
            },
            None => l.name.as_str().to_owned(),
        };
        r.push(s);
        i = i + 1;
    }
    proof {
        assert(texts(r@) =~= Seq::new(v@.len(), |i: int| loc_text(v@[i])));
    }
    r
}

/// The minutes into the raid at which a delayed boss spawns, to the nearest.
pub open spec fn delay_minutes(st: i64) -> nat {
    ((st + 30) / 60) as nat
}

/// The card of a spawn.
pub open spec fn node_card(l: PoiLayer, nd: Node) -> Card {
    let accent = look(l).color;
    if l == PoiLayer::PmcSpawn {
        Card {
            title: "PMC spawn"@,
            subtitle: "Spawn point"@,
            detail: group_lines(nd) + loot_lines(nd),
            accent,
        }
    } else if l == PoiLayer::ScavSpawn {
        Card { title: "Scav spawn"@, subtitle: "Spawn point"@, detail: group_lines(nd), accent }
    } else if l == PoiLayer::Boss {
        Card {
            title: text_or(some_text(nd.name), text_or(some_text(nd.boss_title), "Boss"@)),
            subtitle: "Boss spawn"@,
            detail: line_if(nd.chance is Some, "Chance "@ + nd.chance->0@ + "%"@) + line_if(
                nd.st is Some && nd.st->0 >= 60,
                "Spawns ~"@ + decimal(delay_minutes(nd.st->0)) + " min in"@,
            ) + line_if(
                nd.escorts@.len() > 0,
                "Escorts: "@ + joined(
                    Seq::new(nd.escorts@.len(), |i: int| escort_text(nd.escorts@[i])),
                    ", "@,
                ),
            ) + line_if(
                nd.locs@.len() > 0,
                "Zones: "@ + joined(
                    Seq::new(nd.locs@.len(), |i: int| loc_text(nd.locs@[i])),
                    "  \u{00B7}  "@,
                ),
            ) + loot_lines(nd),
            accent,
        }
    } else {
        Card { title: "Spawn"@, subtitle: "Spawn point"@, detail: seq![], accent }
    }
}

fn boss_detail(nd: &Node) -> (detail: Vec<String>)
    ensures
        texts(detail@) == node_card(PoiLayer::Boss, *nd).detail,
{
    let mut detail = no_lines();
    if let Some(c) = &nd.chance {
        add_line(&mut detail, join3("Chance ", c.as_str(), "%"));
    }
    if let Some(st) = nd.st {
        if st >= 60 {
            let minutes: u64 = (st as u64 + 30) / 60;
            let count = decimal_of(minutes);
            add_line(&mut detail, join3("Spawns ~", count.as_str(), " min in"));
        }
    }
    if nd.escorts.len() > 0 {
        let parts = escort_texts(&nd.escorts);
        let list = join_texts(&parts, ", ");
        add_line(&mut detail, join2("Escorts: ", list.as_str()));
    }
    if nd.locs.len() > 0 {
        let parts = loc_texts(&nd.locs);
        let list = join_texts(&parts, "  \u{00B7}  ");
        add_line(&mut detail, join2("Zones: ", list.as_str()));
    }
    add_loot(&mut detail, nd);
    proof {
        assert(texts(detail@) =~= node_card(PoiLayer::Boss, *nd).detail);
    }
    detail
}

/// The card of a spawn.
pub fn node_info(l: PoiLayer, nd: &Node) -> (r: MarkerInfo)
    ensures
        r@ == node_card(l, *nd),
{
    let accent = poi_look(l).color;
    let r = match l {
        PoiLayer::PmcSpawn => {
            let mut detail = no_lines();
            add_group(&mut detail, nd);
            add_loot(&mut detail, nd);
            MarkerInfo {
                title: "PMC spawn".to_owned(),
                subtitle: "Spawn point".to_owned(),
                detail,
                accent,
            }
        },
        PoiLayer::ScavSpawn => {
            let mut detail = no_lines();
            add_group(&mut detail, nd);
            MarkerInfo {
                title: "Scav spawn".to_owned(),
                subtitle: "Spawn point".to_owned(),
                detail,
                accent,
            }
        },
        PoiLayer::Boss => {
            let fallback = filled_or(&nd.boss_title, "Boss");
            MarkerInfo {
                title: filled_or(&nd.name, fallback.as_str()),
                subtitle: "Boss spawn".to_owned(),
                detail: boss_detail(nd),
                accent,
            }
        },
        _ => MarkerInfo {
            title: "Spawn".to_owned(),
            subtitle: "Spawn point".to_owned(),
            detail: no_lines(),
            accent,
        },
    };
    proof {
        assert(r@.detail =~= node_card(l, *nd).detail);
    }
    r
}

/// The card of an object that was classified by its name.
pub open spec fn sem_card(l: PoiLayer, poi: Poi) -> Card {
    let kind = if l == PoiLayer::Extract {
        "Extract"@
    } else if l == PoiLayer::Door {
        "Door"@
    } else {
        "Loot prop"@
    };
    Card {
        title: if poi.pretty@.len() > 0 {
            poi.pretty@
        } else {
            kind
        },
        subtitle: kind,
        detail: seq![],
        accent: look(l).color,
    }
}

/// The card of an object that was classified by its name.
pub fn sem_info(l: PoiLayer, poi: &Poi) -> (r: MarkerInfo)
    ensures
        r@ == sem_card(l, *poi),
{
    let kind: &str = match l {
        PoiLayer::Extract => "Extract",
        PoiLayer::Door => "Door",
        _ => "Loot prop",
    };
    MarkerInfo {
        title: nonempty_or(poi.pretty.as_str(), kind),
        subtitle: kind.to_owned(),
        detail: no_lines(),
        accent: poi_look(l).color,
    }
}

/// Whether one of the keys is a keycard.
pub open spec fn any_card(keys: Seq<Key>) -> bool {
    exists|i: int| 0 <= i < keys.len() && (#[trigger] keys[i]).card == 1
}

/// Whether one of the keys is a keycard.
pub fn has_keycard(keys: &Vec<Key>) -> (r: bool)
    ensures
        r == any_card(keys@),
{
    let n: usize = keys.len();
    let mut i: usize = 0;
    while i < n
        invariant
            i <= n,
            n == keys@.len(),
            forall|j: int| 0 <= j < i ==> (#[trigger] keys@[j]).card != 1,
        decreases n - i,
    {
        if keys[i].card == 1 {
            return true;
        }
        i = i + 1;
    }
    false
}

/// The line on a price, where there is one above nothing.
pub open spec fn value_lines(pr: Option<Price>) -> Seq<Seq<char>> {
    line_if(pr is Some && pr->0.roubles > 0, "Value  "@ + pr->0.text@)
}

fn add_value(detail: &mut Vec<String>, pr: &Option<Price>)
    ensures
        texts(final(detail)@) == texts(old(detail)@) + value_lines(*pr),
{
    if let Some(p) = pr {
        if p.roubles > 0 {
            add_line(detail, join2("Value  ", p.text.as_str()));
            return;
        }
    }
    proof {
        assert(texts(detail@) + value_lines(*pr) =~= texts(detail@));
    }
}

/// The lines on key `i` of a lock.
pub open spec fn key_lines(k: Key, i: int) -> Seq<Seq<char>> {
    seq![
        (if i == 0 {
            "Needs"@
        } else {
            "Or"@
        }) + ": "@ + k.n@ + if k.card == 1 {
            "  [keycard]"@
        } else {
            ""@
        },
    ] + value_lines(k.pr)
}

/// The lines on the first `n` keys of a lock.
pub open spec fn keys_lines(keys: Seq<Key>, n: nat) -> Seq<Seq<char>>
    decreases n,
{
    if n == 0 {
        seq![]
    } else {
        keys_lines(keys, (n - 1) as nat) + key_lines(keys[n - 1], n - 1)
    }
}

/// The card of something locked: every key is listed.
pub open spec fn lock_card(lk: Lock) -> Card {
    Card {
        title: if lk.keys@.len() > 0 && lk.keys@[0].s@.len() > 0 {
            lk.keys@[0].s@
        } else {
            "Locked"@
        },
        subtitle: lk.lt_title@,
        detail: if lk.keys@.len() == 0 {
            seq!["No key listed"@]
        } else {
            keys_lines(lk.keys@, lk.keys@.len()) + line_if(lk.pw == 1, "Power required"@)
        },
        accent: if any_card(lk.keys@) {
            keycard_color()
        } else {
            look(PoiLayer::Lock).color
        },
    }
}

fn add_key(detail: &mut Vec<String>, k: &Key, first: bool)
    ensures
        texts(final(detail)@) == texts(old(detail)@) + key_lines(
            *k,
            if first {
                0
            } else {
                1
            },
        ),
{
    let lead: &str = if first {
        "Needs"
    } else {
        "Or"
    };
    let mut needs = join3(lead, ": ", k.n.as_str());
    if k.card == 1 {
        needs.append("  [keycard]");
    } else {
        needs.append("");
    }
    let ghost before = texts(detail@);
    let ghost needs_text = needs@;
    add_line(detail, needs);
    add_value(detail, &k.pr);
    proof {
        assert(texts(detail@) =~= before + (seq![needs_text] + value_lines(k.pr)));
    }
}

/// The card of something locked.
pub fn lock_info(lk: &Lock) -> (r: MarkerInfo)
    ensures
        r@ == lock_card(*lk),
{
    let mut detail = no_lines();
    let n: usize = lk.keys.len();
    if n == 0 {
        add_line(&mut detail, "No key listed".to_owned());
    } else {
        let mut i: usize = 0;
        while i < n
            invariant
                i <= n,
                n == lk.keys@.len(),
                texts(detail@) == keys_lines(lk.keys@, i as nat),
            decreases n - i,
        {
            add_key(&mut detail, &lk.keys[i], i == 0);
            i = i + 1;
        }
        if lk.pw == 1 {
            add_line(&mut detail, "Power required".to_owned());
        }
    }
    let title = if n > 0 && !is_blank(lk.keys[0].s.as_str()) {
        lk.keys[0].s.as_str().to_owned()
    } else {
        "Locked".to_owned()
    };
    let r = MarkerInfo {
        title,
        subtitle: lk.lt_title.as_str().to_owned(),
        detail,
        accent: if has_keycard(&lk.keys) {
            make_color(0x3f38_51ec, 0x3ee6_6666, 0x3f6b_851f)
        } else {
            poi_look(PoiLayer::Lock).color
        },
    };
    proof {
        assert(r@.detail =~= lock_card(*lk).detail);
    }
    r
}

/// The card of a switch.
pub open spec fn switch_card(sw: Switch) -> Card {
    Card {
        title: sw.name@,
        subtitle: "Switch"@,
        detail: line_if(sw.st@.len() > 0, "Type: "@ + sw.st@),
        accent: look(PoiLayer::Switch).color,
    }
}

/// The card of a switch.
pub fn switch_info(sw: &Switch) -> (r: MarkerInfo)
    ensures
        r@ == switch_card(*sw),
{
    let mut detail = no_lines();
    if !is_blank(sw.st.as_str()) {
        add_line(&mut detail, join2("Type: ", sw.st.as_str()));
    }
    let r = MarkerInfo {
        title: sw.name.as_str().to_owned(),
        subtitle: "Switch".to_owned(),
        detail,
        accent: poi_look(PoiLayer::Switch).color,
    };
    proof {
        assert(r@.detail =~= switch_card(*sw).detail);
    }
    r
}

/// The clean name of the destination, where the description holds it.
pub open spec fn described_destination(tr: Transit) -> Option<Seq<char>> {
    match rest_after(tr.desc@, "Transit to "@) {
        Some(d) => if d.len() > 0 {
            Some(d)
        } else {
            None
        },
        None => None,
    }
}

/// The card of a way to another map. A description that gave the title is not repeated.
pub open spec fn transit_card(tr: Transit) -> Card {
    let d = described_destination(tr);
    Card {
        title: "Transit \u{2192} "@ + text_or(d, tr.to_title@),
        subtitle: "Transit"@,
        detail: line_if(d is None && tr.desc@.len() > 0, tr.desc@) + line_if(tr.cond@.len() > 0, tr.cond@),
        accent: look(PoiLayer::Transit).color,
    }
}

/// The card of a way to another map.
pub fn transit_info(tr: &Transit) -> (r: MarkerInfo)
    ensures
        r@ == transit_card(*tr),
{
    let found = after_prefix(tr.desc.as_str(), "Transit to ");
    let clean = match &found {
        Some(d) => !is_blank(d.as_str()),
        None => false,
    };
    let dest = match found {
        Some(d) => if clean {
            d
        } else {
            tr.to_title.as_str().to_owned()
        },
        None => tr.to_title.as_str().to_owned(),
    };
    let mut detail = no_lines();
    if !clean && !is_blank(tr.desc.as_str()) {
        add_line(&mut detail, tr.desc.as_str().to_owned());
    }
    if !is_blank(tr.cond.as_str()) {
        add_line(&mut detail, tr.cond.as_str().to_owned());
    }
    let r = MarkerInfo {
        title: join2("Transit \u{2192} ", dest.as_str()),
        subtitle: "Transit".to_owned(),
        detail,
        accent: poi_look(PoiLayer::Transit).color,
    };
    proof {
        assert(r@.detail =~= transit_card(*tr).detail);
    }
    r
}

/// The card of a hazard. The kind is not repeated below a title that is the kind.
pub open spec fn hazard_card(hz: Hazard) -> Card {
    let title = if hz.name@.len() > 0 {
        hz.name@
    } else {
        hz.ht_title@
    };
    Card {
        title,
        subtitle: "Hazard"@,
        detail: line_if(hz.ht_title@ != title, hz.ht_title@),
        accent: look(PoiLayer::Hazard).color,
    }
}

/// The card of a hazard.
pub fn hazard_info(hz: &Hazard) -> (r: MarkerInfo)
    ensures
        r@ == hazard_card(*hz),
{
    let title = nonempty_or(hz.name.as_str(), hz.ht_title.as_str());
    let mut detail = no_lines();
    if !same(hz.ht_title.as_str(), title.as_str()) {
        add_line(&mut detail, hz.ht_title.as_str().to_owned());
    }
    let r = MarkerInfo {
        title,
        subtitle: "Hazard".to_owned(),
        detail,
        accent: poi_look(PoiLayer::Hazard).color,
    };
    proof {
        assert(r@.detail =~= hazard_card(*hz).detail);
    }
    r
}

/// A card without details.
pub open spec fn plain_card(title: Seq<char>, subtitle: Seq<char>, l: PoiLayer) -> Card {
    Card { title, subtitle, detail: seq![], accent: look(l).color }
}

fn plain_info(title: &str, subtitle: &str, l: PoiLayer) -> (r: MarkerInfo)
    ensures
        r@ == plain_card(title@, subtitle@, l),
{
    MarkerInfo {
        title: title.to_owned(),
        subtitle: subtitle.to_owned(),
        detail: no_lines(),
        accent: poi_look(l).color,
    }
}

/// The card of a mounted weapon.
pub fn stationary_info(st: &Stationary) -> (r: MarkerInfo)
    ensures
        r@ == plain_card(st.name@, "Stationary weapon"@, PoiLayer::Stationary),
{
    plain_info(st.name.as_str(), "Stationary weapon", PoiLayer::Stationary)
}

/// The card of a typed mounted weapon.
pub fn gd_stationary_info(st: &GdStationary) -> (r: MarkerInfo)
    ensures
        r@ == plain_card(st.pretty@, "Stationary weapon \u{00B7} game files"@, PoiLayer::Stationary),
{
    plain_info(st.pretty.as_str(), "Stationary weapon \u{00B7} game files", PoiLayer::Stationary)
}

/// The card of a mounted weapon that was found in the geometry.
pub open spec fn geometry_card() -> Card {
    Card {
        title: "Stationary gun"@,
        subtitle: "Mounted MG"@,
        detail: seq!["From map geometry"@],
        accent: look(PoiLayer::Stationary).color,
    }
}

/// The card of a mounted weapon that was found in the geometry.
pub fn geometry_info() -> (r: MarkerInfo)
    ensures
        r@ == geometry_card(),
{
    let mut detail = no_lines();
    add_line(&mut detail, "From map geometry".to_owned());
    let r = MarkerInfo {
        title: "Stationary gun".to_owned(),
        subtitle: "Mounted MG".to_owned(),
        detail,
        accent: poi_look(PoiLayer::Stationary).color,
    };
    proof {
        assert(r@.detail =~= geometry_card().detail);
    }
    r
}

/// How an item is called: by its name, its short name or its template, whichever comes first.
pub open spec fn item_label(it: GdLooseItem) -> Seq<char> {
    match it.n {
        Some(s) => s@,
        None => match it.s {
            Some(s) => s@,
            None => match it.tpl {
                Some(s) => s@,
                None => seq![],
            },
        },
    }
}

fn item_label_of(it: &GdLooseItem) -> (r: String)
    ensures
        r@ == item_label(*it),
{
    match &it.n {
        Some(s) => s.as_str().to_owned(),
        None => match &it.s {
            Some(s) => s.as_str().to_owned(),
            None => match &it.tpl {
                Some(s) => s.as_str().to_owned(),
                None => {
                    let r = String::new();
                    proof {
                        assert(r@ =~= Seq::<char>::empty());
                    }
                    r
                },
            },
        },
    }
}

/// The lines on the best item of a loot point.
pub open spec fn best_item_lines(items: Seq<GdLooseItem>) -> Seq<Seq<char>> {
    if items.len() == 0 {
        seq![]
    } else {
        let best = items[0];
        line_if(
            item_label(best).len() > 0,
            if best.cat == 1 {
                item_label(best) + " (category)"@
            } else {
                item_label(best)
            },
        ) + value_lines(best.pr) + line_if(items.len() > 1, "Pool: "@ + decimal(items.len()) + " possible"@)
    }
}

/// The card of a typed loot point: its best item, the size of its pool, and where both come from.
pub open spec fn gd_loose_card(lo: GdLoose) -> Card {
    Card {
        title: text_or(some_text(lo.pretty), "Loose loot"@),
        subtitle: "Loose loot \u{00B7} game files"@,
        detail: best_item_lines(lo.items@) + line_if(
            lo.n > 1,
            "\u{00D7}"@ + decimal(lo.n as nat) + " spawn slots"@,
        ) + inactive_line(lo.active) + seq![
            if maybe_text(lo.items_src) == Some("tarkov.dev"@) {
                "pos: game files \u{00B7} items: tarkov.dev"@
            } else {
                "game files"@
            },
        ],
        accent: look(PoiLayer::LooseLoot).color,
    }
}

fn best_item(items: &Vec<GdLooseItem>) -> (detail: Vec<String>)
    ensures
        texts(detail@) == best_item_lines(items@),
{
    let mut detail = no_lines();
    let n: usize = items.len();
    if n > 0 {
        let best = &items[0];
        let label = item_label_of(best);
        if !is_blank(label.as_str()) {
            if best.cat == 1 {
                add_line(&mut detail, join2(label.as_str(), " (category)"));
            } else {
                add_line(&mut detail, label);
            }
        }
        add_value(&mut detail, &best.pr);
        if n > 1 {
            let count = decimal_of(n as u64);
            add_line(&mut detail, join3("Pool: ", count.as_str(), " possible"));
        }
    }
    proof {
        assert(texts(detail@) =~= best_item_lines(items@));
    }
    detail
}

/// The card of a typed loot point.
pub fn gd_loose_info(lo: &GdLoose) -> (r: MarkerInfo)
    ensures
        r@ == gd_loose_card(*lo),
{
    let mut detail = best_item(&lo.items);
    let ghost before = texts(detail@);
    if lo.n > 1 {
        let count = decimal_of(lo.n as u64);
        add_line(&mut detail, join3("\u{00D7}", count.as_str(), " spawn slots"));
    }
    proof {
        assert(texts(detail@) =~= before + line_if(
            lo.n > 1,
            "\u{00D7}"@ + decimal(lo.n as nat) + " spawn slots"@,
        ));
    }
    add_inactive(&mut detail, lo.active);
    let joined_items = match &lo.items_src {
        Some(s) => same(s.as_str(), "tarkov.dev"),
        None => false,
    };
    if joined_items {
        add_line(&mut detail, "pos: game files \u{00B7} items: tarkov.dev".to_owned());
    } else {
        add_line(&mut detail, "game files".to_owned());
    }
    MarkerInfo {
        title: filled_or(&lo.pretty, "Loose loot"),
        subtitle: "Loose loot \u{00B7} game files".to_owned(),
        detail,
        accent: poi_look(PoiLayer::LooseLoot).color,
    }
}

/// The card of a loose item of value.
pub open spec fn loose_card(lo: Loose) -> Card {
    Card {
        title: if lo.n@.len() > 0 {
            lo.n@
        } else {
            lo.s@
        },
        subtitle: "Loose loot"@,
        detail: value_lines(lo.pr),
        accent: look(PoiLayer::LooseLoot).color,
    }
}

/// The card of a loose item of value.
pub fn loose_info(lo: &Loose) -> (r: MarkerInfo)
    ensures
        r@ == loose_card(*lo),
{
    let mut detail = no_lines();
    add_value(&mut detail, &lo.pr);
    let r = MarkerInfo {
        title: nonempty_or(lo.n.as_str(), lo.s.as_str()),
        subtitle: "Loose loot".to_owned(),
        detail,
        accent: poi_look(PoiLayer::LooseLoot).color,
    };
    proof {
        assert(r@.detail =~= loose_card(*lo).detail);
    }
    r
}

} // verus!
