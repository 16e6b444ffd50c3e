//! What cards say of the records that they are made from.
use crate::compose::{joined, maybe_text, rest_after};
use crate::f32bits::float;
use crate::numbers::digits_value;
use crate::poi::card::{
    delay_minutes, door_card, escort_text, exfil_card, extent_lines, extract_card, gd_loose_card, geometry_card,
    hazard_card, key_lines, keycard_color, keys_lines, label_of, loc_text, lock_card, loose_card,
    mine_card, node_card, part_labels, quest_card, quest_tags, sem_card, switch_card, trader_card,
    transit_card, trigger_card, trigger_line, zone_card, Card,
};
use crate::poi::layer::{look, PoiLayer};
use crate::poi::records::{
    titles, BossLoc, Escort, GdDoor, GdExfil, GdLoose, GdZone, Hazard, Key, Lock, Loose, Node, Poi,
    QuestObjective, QuestTask, Switch, Titled, Transit,
};
use crate::text::{decimal, digit};
use vstd::prelude::*;

verus! {

/// A line that stands only on a condition.
pub open spec fn where_so(c: bool, s: Seq<char>) -> Seq<Seq<char>> {
    if c {
        seq![s]
    } else {
        Seq::empty()
    }
}

/// The card of a player's spawn gives the size of its group and the loot within reach, that of a
/// scav's only the former; each in the colour of its layer.
pub proof fn spawn_cards_name_their_kind(nd: Node)
    ensures
        node_card(PoiLayer::PmcSpawn, nd).title == "PMC spawn"@,
        node_card(PoiLayer::PmcSpawn, nd).subtitle == "Spawn point"@,
        node_card(PoiLayer::PmcSpawn, nd).detail == where_so(
            nd.n is Some,
            "Group \u{00D7}"@ + decimal(nd.n->0 as nat),
        ) + where_so(nd.ev is Some, "Est. loot  "@ + nd.ev->0.text@),
        node_card(PoiLayer::PmcSpawn, nd).accent == look(PoiLayer::PmcSpawn).color,
        node_card(PoiLayer::ScavSpawn, nd).title == "Scav spawn"@,
        node_card(PoiLayer::ScavSpawn, nd).subtitle == "Spawn point"@,
        node_card(PoiLayer::ScavSpawn, nd).detail == where_so(
            nd.n is Some,
            "Group \u{00D7}"@ + decimal(nd.n->0 as nat),
        ),
        node_card(PoiLayer::ScavSpawn, nd).accent == look(PoiLayer::ScavSpawn).color,
{
}

/// The card of a boss bears its name, or the title of its key; it gives its chance, its delay where it
/// is a minute at least, all escorts, all zones and the loot within reach, in this order.
pub proof fn boss_cards_list_escorts_and_zones(nd: Node)
    ensures
        ({
            let c = node_card(PoiLayer::Boss, nd);
            &&& nd.name is Some && nd.name->0@.len() > 0 ==> c.title == nd.name->0@
            &&& nd.name is None && nd.boss_title is Some && nd.boss_title->0@.len() > 0 ==> c.title
                == nd.boss_title->0@
            &&& nd.name is None && nd.boss_title is None ==> c.title == "Boss"@
            &&& c.subtitle == "Boss spawn"@
            &&& c.accent == look(PoiLayer::Boss).color
            &&& c.detail == where_so(nd.chance is Some, "Chance "@ + nd.chance->0@ + "%"@) + where_so(
                nd.st is Some && nd.st->0 >= 60,
                "Spawns ~"@ + decimal(delay_minutes(nd.st->0)) + " min in"@,
            ) + where_so(
                nd.escorts@.len() > 0,
                "Escorts: "@ + joined(nd.escorts@.map_values(|e: Escort| escort_text(e)), ", "@),
            ) + where_so(
                nd.locs@.len() > 0,
                "Zones: "@ + joined(nd.locs@.map_values(|l: BossLoc| loc_text(l)), "  \u{00B7}  "@),
            ) + where_so(nd.ev is Some, "Est. loot  "@ + nd.ev->0.text@)
        }),
{
    assert(nd.escorts@.map_values(|e: Escort| escort_text(e)) =~= Seq::new(
        nd.escorts@.len(),
        |i: int| escort_text(nd.escorts@[i]),
    ));
    assert(nd.locs@.map_values(|l: BossLoc| loc_text(l)) =~= Seq::new(
        nd.locs@.len(),
        |i: int| loc_text(nd.locs@[i]),
    ));
}

/// A delay is given to the nearest minute.
pub proof fn delays_are_rounded_to_minutes(st: i64)
    requires
        st >= 60,
    ensures
        60 * delay_minutes(st) - 30 <= st < 60 * delay_minutes(st) + 30,
{
}

/// Escorts come with their number, where it is above nothing; zones with their chance, where it is
/// neither none nor certain.
pub proof fn escorts_and_zones_carry_their_numbers(e: Escort, l: BossLoc)
    ensures
        e.count is Some && e.count->0 > 0 ==> escort_text(e) == decimal(e.count->0 as nat) + "\u{00D7} "@ + e.who@,
        e.count is None || e.count->0 == 0 ==> escort_text(e) == e.who@,
        l.chance is None ==> loc_text(l) == l.name@,
        l.chance is Some && float(0).lt(l.chance->0.value) && l.chance->0.value.lt(float(0x3f80_0000)) ==> loc_text(l)
            == l.name@ + " "@ + l.chance->0.percent@ + "%"@,
        l.chance is Some && !(float(0).lt(l.chance->0.value) && l.chance->0.value.lt(float(0x3f80_0000)))
            ==> loc_text(l) == l.name@,
{
}

/// The line on a key of a lock.
pub open spec fn key_line(keys: Seq<Key>, i: int) -> Seq<char> {
    (if i == 0 {
        "Needs"@
    } else {
        "Or"@
    }) + ": "@ + keys[i].n@ + if keys[i].card == 1 {
        "  [keycard]"@
    } else {
        ""@
    }
}

proof fn key_is_listed(keys: Seq<Key>, n: nat, i: int)
    requires
        0 <= i < n <= keys.len(),
    ensures
        keys_lines(keys, n).contains(key_line(keys, i)),
        keys[i].pr is Some && keys[i].pr->0.roubles > 0 ==> keys_lines(keys, n).contains(
            "Value  "@ + keys[i].pr->0.text@,
        ),
    decreases n,
{
    let rest = keys_lines(keys, (n - 1) as nat);
    let own = key_lines(keys[n - 1], n - 1);
    let all = keys_lines(keys, n);
    assert(all == rest + own);
    if i == n - 1 {
        assert(own[0] == key_line(keys, i));
        assert(all[rest.len() as int] == key_line(keys, i));
        if keys[i].pr is Some && keys[i].pr->0.roubles > 0 {
            assert(own[1] == "Value  "@ + keys[i].pr->0.text@);
            assert(all[(rest.len() + 1) as int] == "Value  "@ + keys[i].pr->0.text@);
        }
    } else {
        key_is_listed(keys, (n - 1) as nat, i);
        let q = choose|q: int| 0 <= q < rest.len() && rest[q] == key_line(keys, i);
        assert(all[q] == key_line(keys, i));
        if keys[i].pr is Some && keys[i].pr->0.roubles > 0 {
            let t = "Value  "@ + keys[i].pr->0.text@;
            let q = choose|q: int| 0 <= q < rest.len() && rest[q] == t;
            assert(all[q] == t);
        }
    }
}

/// The card of something locked lists every key that opens it, the first as what it needs and the
/// others as what does too, with the price of each that has one.
pub proof fn locks_list_every_key(lk: Lock, i: int)
    requires
        0 <= i < lk.keys@.len(),
    ensures
        lock_card(lk).detail.contains(key_line(lk.keys@, i)),
        lk.keys@[i].pr is Some && lk.keys@[i].pr->0.roubles > 0 ==> lock_card(lk).detail.contains(
            "Value  "@ + lk.keys@[i].pr->0.text@,
        ),
        lk.pw == 1 ==> lock_card(lk).detail.last() == "Power required"@,
        lk.keys@[0].s@.len() > 0 ==> lock_card(lk).title == lk.keys@[0].s@,
        lk.keys@[0].s@.len() == 0 ==> lock_card(lk).title == "Locked"@,
        lock_card(lk).subtitle == lk.lt_title@,
{
    let keys = lk.keys@;
    let lines = keys_lines(keys, keys.len());
    let d = lock_card(lk).detail;
    key_is_listed(keys, keys.len(), i);
    let q = choose|q: int| 0 <= q < lines.len() && lines[q] == key_line(keys, i);
    assert(d[q] == key_line(keys, i));
    if keys[i].pr is Some && keys[i].pr->0.roubles > 0 {
        let t = "Value  "@ + keys[i].pr->0.text@;
        let q = choose|q: int| 0 <= q < lines.len() && lines[q] == t;
        assert(d[q] == t);
    }
}

/// A lock that no key is listed for says so; one that a keycard opens has a colour of its own.
pub proof fn locks_without_keys_say_so(lk: Lock)
    ensures
        lk.keys@.len() == 0 ==> lock_card(lk).title == "Locked"@ && lock_card(lk).detail == seq!["No key listed"@],
        (exists|i: int| 0 <= i < lk.keys@.len() && (#[trigger] lk.keys@[i]).card == 1) ==> lock_card(lk).accent
            == keycard_color(),
        (forall|i: int| 0 <= i < lk.keys@.len() ==> (#[trigger] lk.keys@[i]).card != 1) ==> lock_card(lk).accent
            == look(PoiLayer::Lock).color,
        keycard_color().r.bits == 0x3f38_51ec && keycard_color().g.bits == 0x3ee6_6666 && keycard_color().b.bits
            == 0x3f6b_851f,
{
}

/// Factions go by their labels: players, scavs, all and secret; several at once are all, and any other
/// goes by its own title.
pub proof fn factions_go_by_their_labels(word: Seq<char>, title: Seq<char>)
    ensures
        word == "pmc"@ ==> label_of(word, title) == "PMC"@,
        word == "scav"@ ==> label_of(word, title) == "Scav"@,
        word == "shared"@ ==> label_of(word, title) == "All"@,
        word == "secret"@ ==> label_of(word, title) == "Secret"@,
        word.contains('+') ==> label_of(word, title) == "All"@,
        word != "pmc"@ && word != "scav"@ && word != "shared"@ && word != "secret"@ && !word.contains('+')
            ==> label_of(word, title) == title,
{
    reveal_strlit("pmc");
    reveal_strlit("scav");
    reveal_strlit("shared");
    reveal_strlit("secret");
    assert("pmc"@.len() == 3 && "scav"@.len() == 4 && "shared"@.len() == 6 && "secret"@.len() == 6);
    assert("shared"@[1] == 'h' && "secret"@[1] == 'e');
    assert forall|i: int| 0 <= i < 3 implies "pmc"@[i] != '+' by {}
    assert forall|i: int| 0 <= i < 4 implies "scav"@[i] != '+' by {}
    assert forall|i: int| 0 <= i < 6 implies "secret"@[i] != '+' by {}
}

/// The card of an extract has its name, or "Extract", with the label of its faction behind; joined
/// factions are listed one by one.
pub proof fn extract_cards_say_who_may_use_them(name: Seq<char>, fac: Seq<char>, parts: Seq<Titled>)
    requires
        parts.len() > 0,
    ensures
        ({
            let c = extract_card(name, fac, parts);
            let shown = if name.len() > 0 {
                name
            } else {
                "Extract"@
            };
            &&& fac.len() == 0 ==> c.title == shown
            &&& fac.len() > 0 ==> c.title == shown + "  ["@ + label_of(fac, parts[0].title) + "]"@
            &&& c.subtitle == "Extract"@
            &&& c.detail.len() == 1
            &&& fac.contains('+') ==> c.detail[0] == "Faction: "@ + joined(
                parts.map_values(|p: Titled| label_of(p.word, p.title)),
                " + "@,
            )
            &&& !fac.contains('+') ==> c.detail[0] == "Faction: "@ + label_of(fac, parts[0].title)
            &&& c.accent == crate::poi::card::faction_color(fac)
        }),
{
    assert(part_labels(parts) =~= parts.map_values(|p: Titled| label_of(p.word, p.title)));
}

/// The card of a typed extract bears the name that the community has for it, and its own where there is
/// none; its own is given below where the two differ. What is off in the scene says so.
pub proof fn typed_extracts_bear_the_friendly_name(e: GdExfil, friendly: Option<Seq<char>>)
    ensures
        ({
            let parts = titles(e.faction.parts@);
            let c = exfil_card(e, friendly);
            let base = extract_card(
                match friendly {
                    Some(f) => f,
                    None => e.name@,
                },
                e.faction.text@,
                parts,
            );
            &&& c.title == base.title && c.subtitle == base.subtitle && c.accent == base.accent
            &&& c.detail == base.detail + where_so(
                friendly is Some && friendly->0 != e.name@ && e.name@.len() > 0,
                "Scene id: "@ + e.name@,
            ) + where_so(!e.active, "Inactive in scene"@) + seq!["Source: game files"@]
        }),
{
}

/// The extent of a zone is given where it is more than a metre both ways: the one that was measured,
/// else the sides of an outline with three corners at least.
pub proof fn extents_of_more_than_a_metre_are_given(z: GdZone)
    ensures
        ({
            let one = float(0x3f80_0000);
            let measured = z.extent is Some && one.lt(z.extent->0.w) && one.lt(z.extent->0.d);
            let sides = z.sides is Some && one.lt(z.sides->0.w) && one.lt(z.sides->0.d) && z.outline@.len() >= 3;
            &&& measured ==> extent_lines(z) == seq![z.extent->0.text@]
            &&& !measured && sides ==> extent_lines(z) == seq![z.sides->0.text@]
            &&& !measured && !sides ==> extent_lines(z).len() == 0
        }),
{
}

/// The cards of typed zones: what they are, their extent, and whether they are off in the scene.
pub proof fn zone_cards_say_what_they_are(z: GdZone)
    ensures
        zone_card(PoiLayer::SniperZone, z).title == "Sniper zone"@,
        zone_card(PoiLayer::Minefield, z).title == "Minefield"@,
        zone_card(PoiLayer::Minefield, z).detail == extent_lines(z) + where_so(
            z.pretty is Some && z.pretty->0@.len() > 0,
            z.pretty->0@,
        ) + where_so(!z.active, "Inactive in scene"@),
        zone_card(PoiLayer::SniperZone, z).detail == zone_card(PoiLayer::Minefield, z).detail,
        zone_card(PoiLayer::SniperZone, z).accent == look(PoiLayer::SniperZone).color,
        zone_card(PoiLayer::Minefield, z).accent == look(PoiLayer::Minefield).color,
        z.kind is Some && z.kind->0@.len() > 0 ==> mine_card(z).title == z.kind->0@ + " directional mine"@,
        z.kind is None ==> mine_card(z).title == "Directional mine"@,
        mine_card(z).detail == extent_lines(z) + where_so(!z.active, "Inactive in scene"@) + seq!["game files"@],
        mine_card(z).accent == look(PoiLayer::Hazard).color,
        z.name is Some && z.name->0@.len() > 0 ==> trigger_card(z).title == z.name->0@,
        z.name is None ==> trigger_card(z).title == "Quest zone"@,
        trigger_card(z).detail == seq![trigger_line(maybe_text(z.kind))] + extent_lines(z) + where_so(
            !z.active,
            "Inactive in scene"@,
        ),
        trigger_card(z).accent == look(PoiLayer::Quest).color,
        z.pretty is Some && z.pretty->0@.len() > 0 ==> trader_card(z).title == z.pretty->0@,
        z.pretty is None ==> trader_card(z).title == "Zone"@,
        trader_card(z).detail == extent_lines(z) + where_so(!z.active, "Inactive in scene"@),
        trader_card(z).accent == look(PoiLayer::Hazard).color,
{
}

/// Three kinds of triggers are told apart; any other is just a trigger.
pub proof fn kinds_of_triggers_are_told_apart(kind: Option<Seq<char>>)
    ensures
        kind == Some("place_item"@) ==> trigger_line(kind) == "Place-item zone"@,
        kind == Some("visit"@) ==> trigger_line(kind) == "Visit / exploration zone"@,
        kind == Some("flare"@) ==> trigger_line(kind) == "Flare-signal zone"@,
        kind is None || kind->0 != "place_item"@ && kind->0 != "visit"@ && kind->0 != "flare"@ ==> trigger_line(kind)
            == "Quest trigger"@,
{
    reveal_strlit("place_item");
    reveal_strlit("visit");
    reveal_strlit("flare");
    assert("place_item"@.len() == 10 && "visit"@.len() == 5 && "flare"@.len() == 5);
    assert("visit"@[0] == 'v' && "flare"@[0] == 'f');
}

/// The card of a door bears the name of its key, else its own, else what it is. It gives its key, the
/// community's name for that, its state and whether it is off in the scene; one that is locked has the
/// colour of locks.
pub proof fn door_cards_name_key_and_state(d: GdDoor, key: Option<Seq<char>>)
    ensures
        ({
            let c = door_card(d, key);
            let kind = if d.kind@ == "trunk"@ {
                "Trunk"@
            } else {
                "Door"@
            };
            let keyed = d.key_id is Some && d.key_id->0@.len() > 0;
            &&& key is Some ==> c.title == key->0
            &&& key is None && d.pretty is Some && d.pretty->0@.len() > 0 ==> c.title == d.pretty->0@
            &&& key is None && d.pretty is None ==> c.title == kind
            &&& c.subtitle == kind + " \u{00B7} game files"@
            &&& c.detail == where_so(keyed, "Key: "@ + d.key_id->0@) + where_so(
                keyed && key is Some,
                "= "@ + key->0 + " (tarkov.dev)"@,
            ) + where_so(d.state is Some, "State: "@ + d.state->0.title@) + where_so(
                !d.active,
                "Inactive in scene"@,
            )
            &&& d.state is Some && d.state->0.word@ == "locked"@ ==> c.accent == look(PoiLayer::Lock).color
            &&& d.state is None || d.state->0.word@ != "locked"@ ==> c.accent == look(PoiLayer::Door).color
        }),
{
}

/// The card of an objective bears the name of its task, its trader and its own description; the level
/// that it needs and whether it counts for Kappa stand in one line.
pub proof fn quest_cards_name_task_and_trader(t: QuestTask, o: QuestObjective)
    ensures
        ({
            let c = quest_card(t, o);
            let leveled = t.min_level is Some && t.min_level->0 > 0;
            let level = "Lvl "@ + decimal(t.min_level->0 as nat);
            &&& t.name@.len() > 0 ==> c.title == t.name@
            &&& t.name@.len() == 0 ==> c.title == "Task"@
            &&& t.trader@.len() > 0 ==> c.subtitle == "Task \u{00B7} "@ + t.trader@
            &&& t.trader@.len() == 0 ==> c.subtitle == "Task"@
            &&& !leveled && !t.kappa ==> c.detail == where_so(o.desc@.len() > 0, o.desc@)
            &&& leveled && !t.kappa ==> c.detail == where_so(o.desc@.len() > 0, o.desc@).push(level)
            &&& !leveled && t.kappa ==> c.detail == where_so(o.desc@.len() > 0, o.desc@).push("Kappa"@)
            &&& leveled && t.kappa ==> c.detail == where_so(o.desc@.len() > 0, o.desc@).push(
                level + "  \u{00B7}  "@ + "Kappa"@,
            )
            &&& c.accent == look(PoiLayer::Quest).color
        }),
{
    let leveled = t.min_level is Some && t.min_level->0 > 0;
    let level = "Lvl "@ + decimal(t.min_level->0 as nat);
    let tags = quest_tags(t);
    let sep = "  \u{00B7}  "@;
    let first = where_so(o.desc@.len() > 0, o.desc@);
    let c = quest_card(t, o);
    if leveled && t.kappa {
        assert(tags =~= seq![level, "Kappa"@]);
        assert(tags.drop_last() =~= seq![level]);
        assert(joined(seq![level], sep) == level);
        assert(joined(tags, sep) == level + sep + "Kappa"@);
        assert(c.detail =~= first.push(level + sep + "Kappa"@));
    } else if leveled {
        assert(tags =~= seq![level]);
        assert(c.detail =~= first.push(level));
    } else if t.kappa {
        assert(tags =~= seq!["Kappa"@]);
        assert(c.detail =~= first.push("Kappa"@));
    } else {
        assert(tags.len() == 0);
        assert(c.detail =~= first);
    }
}

/// A way to another map is named by its description, where that gives the name, and else by the map's
/// own; a description that gave the name is not repeated, and a condition always stands.
pub proof fn transits_name_their_destination(tr: Transit)
    ensures
        ({
            let c = transit_card(tr);
            let named = rest_after(tr.desc@, "Transit to "@) is Some && rest_after(tr.desc@, "Transit to "@)->0.len()
                > 0;
            &&& named ==> c.title == "Transit \u{2192} "@ + rest_after(tr.desc@, "Transit to "@)->0
            &&& !named ==> c.title == "Transit \u{2192} "@ + tr.to_title@
            &&& c.detail == where_so(!named && tr.desc@.len() > 0, tr.desc@) + where_so(tr.cond@.len() > 0, tr.cond@)
            &&& c.subtitle == "Transit"@
            &&& c.accent == look(PoiLayer::Transit).color
        }),
{
}

/// What follows a beginning is the rest of the text, and only a text with that beginning has one.
pub proof fn the_rest_follows_the_beginning(s: Seq<char>, p: Seq<char>)
    ensures
        rest_after(s, p) matches Some(t) ==> s == p + t,
        rest_after(p + s, p) == Some(s),
{
    if let Some(t) = rest_after(s, p) {
        assert(s =~= p + t);
    }
    assert((p + s).take(p.len() as int) =~= p);
    assert((p + s).skip(p.len() as int) =~= s);
    assert(crate::text::begins(p + s, p)) by {
        assert((p + s).subrange(0, p.len() as int) =~= p);
    }
}

/// A hazard bears its name, and else its kind; the kind stands below a name that is another.
pub proof fn hazards_name_their_kind_once(hz: Hazard)
    ensures
        hz.name@.len() > 0 ==> hazard_card(hz).title == hz.name@,
        hz.name@.len() == 0 ==> hazard_card(hz).title == hz.ht_title@ && hazard_card(hz).detail.len() == 0,
        hz.name@.len() > 0 && hz.name@ != hz.ht_title@ ==> hazard_card(hz).detail == seq![hz.ht_title@],
        hazard_card(hz).accent == look(PoiLayer::Hazard).color,
{
}

/// A loose item bears its name, and else its short one, with its price where it is above nothing.
pub proof fn loose_items_name_their_price(lo: Loose, sw: Switch)
    ensures
        lo.n@.len() > 0 ==> loose_card(lo).title == lo.n@,
        lo.n@.len() == 0 ==> loose_card(lo).title == lo.s@,
        loose_card(lo).detail == where_so(lo.pr is Some && lo.pr->0.roubles > 0, "Value  "@ + lo.pr->0.text@),
        loose_card(lo).accent == look(PoiLayer::LooseLoot).color,
        switch_card(sw).title == sw.name@,
        switch_card(sw).detail == where_so(sw.st@.len() > 0, "Type: "@ + sw.st@),
        switch_card(sw).accent == look(PoiLayer::Switch).color,
{
}

/// A typed loot point gives its best item, that is its first, with its price, how many items it may
/// hold, how many slots it has, and where its items come from.
pub proof fn loot_points_name_their_best_item(lo: GdLoose)
    requires
        lo.items@.len() > 0,
    ensures
        ({
            let c = gd_loose_card(lo);
            let best = lo.items@[0];
            let label = if best.n is Some {
                best.n->0@
            } else if best.s is Some {
                best.s->0@
            } else if best.tpl is Some {
                best.tpl->0@
            } else {
                Seq::empty()
            };
            &&& lo.pretty is Some && lo.pretty->0@.len() > 0 ==> c.title == lo.pretty->0@
            &&& lo.pretty is None ==> c.title == "Loose loot"@
            &&& c.accent == look(PoiLayer::LooseLoot).color
            &&& c.detail == where_so(
                label.len() > 0,
                if best.cat == 1 {
                    label + " (category)"@
                } else {
                    label
                },
            ) + where_so(best.pr is Some && best.pr->0.roubles > 0, "Value  "@ + best.pr->0.text@) + where_so(
                lo.items@.len() > 1,
                "Pool: "@ + decimal(lo.items@.len()) + " possible"@,
            ) + where_so(lo.n > 1, "\u{00D7}"@ + decimal(lo.n as nat) + " spawn slots"@) + where_so(
                !lo.active,
                "Inactive in scene"@,
            ) + seq![
                if lo.items_src is Some && lo.items_src->0@ == "tarkov.dev"@ {
                    "pos: game files \u{00B7} items: tarkov.dev"@
                } else {
                    "game files"@
                },
            ]
        }),
{
}

/// An object that was classified by its name bears that name, and else what it was taken for.
pub proof fn classified_objects_bear_their_name(l: PoiLayer, p: Poi)
    ensures
        p.pretty@.len() > 0 ==> sem_card(l, p).title == p.pretty@,
        sem_card(PoiLayer::Extract, p).subtitle == "Extract"@,
        sem_card(PoiLayer::Door, p).subtitle == "Door"@,
        sem_card(PoiLayer::Interactable, p).subtitle == "Loot prop"@,
        p.pretty@.len() == 0 ==> sem_card(l, p).title == sem_card(l, p).subtitle,
        sem_card(l, p).accent == look(l).color,
        sem_card(l, p).detail.len() == 0,
{
}

/// A number that is written in decimal reads as itself, and begins with a zero only where it is zero.
pub proof fn decimals_read_as_their_number(n: nat)
    ensures
        digits_value(decimal(n)) == Some(n),
        decimal(n).len() > 0,
        n > 0 ==> decimal(n)[0] != '0',
    decreases n,
{
    if n < 10 {
        let s = seq![digit(n)];
        assert(decimal(n) == s);
        assert(s.drop_last() =~= Seq::<char>::empty());
        assert(digits_value(Seq::<char>::empty()) == Some(0nat));
        assert(s.last() == digit(n));
    } else {
        decimals_read_as_their_number(n / 10);
        let d = decimal(n / 10);
        let s = d.push(digit(n % 10));
        assert(s.drop_last() =~= d);
        assert(s.last() == digit(n % 10));
        assert((n / 10) * 10 + n % 10 == n);
    }
}

/// Texts that are joined follow each other with the separator between: one more text is joined by one
/// more separator.
pub proof fn texts_are_joined_in_order(parts: Seq<Seq<char>>, p: Seq<char>, sep: Seq<char>)
    ensures
        parts.len() > 0 ==> joined(parts.push(p), sep) == joined(parts, sep) + sep + p,
        joined(seq![p], sep) == p,
        joined(Seq::empty(), sep).len() == 0,
{
    assert(parts.push(p).drop_last() =~= parts);
}

/// A gun that was found in the geometry is a mounted one, and its card says where it was found.
pub proof fn guns_of_the_geometry_say_so(c: Card)
    requires
        c == geometry_card(),
    ensures
        c.title == "Stationary gun"@,
        c.subtitle == "Mounted MG"@,
        c.detail == seq!["From map geometry"@],
        c.accent == look(PoiLayer::Stationary).color,
{
}

} // verus!
