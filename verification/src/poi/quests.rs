//! The tasks of a map: their markers and walls, and the catalogue that the tracker reads.
use vstd::prelude::*;
use crate::f32bits::F32;
use crate::gpu::materials::V3;
use crate::poi::card::{quest_card, quest_info};
use crate::poi::layer::{holds, look, poi_look, PoiLayer};
use crate::poi::marker::{add_marker, add_wall, copy_points, marker, Marker, QuestMarkerTask, Wall};
use crate::poi::marker::{mark, marks, wall_marks, Mark, WallMark};
use crate::poi::records::{QuestObjective, QuestTask, QuestZone};
use crate::text::{copy_texts, same, texts};

verus! {

/// A zone of an objective on the map.
#[derive(Debug)]
pub struct QuestZoneW {
    pub pos: V3,
    /// The corners of its footprint; none for a mere point.
    pub outline: Vec<V3>,
    pub top: F32,
}

/// An objective, with its zones on the map.
#[derive(Debug)]
pub struct QuestObj {
    pub desc: String,
    pub zones: Vec<QuestZoneW>,
}

/// A task, with its objectives on the map.
#[derive(Debug)]
pub struct QuestEntry {
    pub id: String,
    pub name: String,
    pub trader: String,
    pub min_level: Option<u32>,
    pub kappa: bool,
    pub lk: bool,
    pub requires_tasks: Vec<String>,
    pub objectives: Vec<QuestObj>,
}

/// The tasks of the map.
#[derive(Debug)]
pub struct QuestData {
    pub tasks: Vec<QuestEntry>,
}

/// A zone, as a value to speak of.
#[verifier::ext_equal]
pub struct ZoneView {
    pub pos: V3,
    pub outline: Seq<V3>,
    pub top: F32,
}

/// An objective, as a value to speak of.
#[verifier::ext_equal]
pub struct ObjView {
    pub desc: Seq<char>,
    pub zones: Seq<ZoneView>,
}

/// A task, as a value to speak of.
#[verifier::ext_equal]
pub struct EntryView {
    pub id: Seq<char>,
    pub name: Seq<char>,
    pub trader: Seq<char>,
    pub min_level: Option<u32>,
    pub kappa: bool,
    pub lk: bool,
    pub requires_tasks: Seq<Seq<char>>,
    pub objectives: Seq<ObjView>,
}

/// What zones stand for.
pub open spec fn zone_views(v: Seq<QuestZoneW>) -> Seq<ZoneView> {
    Seq::new(v.len(), |i: int| ZoneView { pos: v[i].pos, outline: v[i].outline@, top: v[i].top })
}

/// What objectives stand for.
pub open spec fn obj_views(v: Seq<QuestObj>) -> Seq<ObjView> {
    Seq::new(v.len(), |i: int| ObjView { desc: v[i].desc@, zones: zone_views(v[i].zones@) })
}

/// What a task stands for.
pub open spec fn entry_view(e: QuestEntry) -> EntryView {
    EntryView {
        id: e.id@,
        name: e.name@,
        trader: e.trader@,
        min_level: e.min_level,
        kappa: e.kappa,
        lk: e.lk,
        requires_tasks: texts(e.requires_tasks@),
        objectives: obj_views(e.objectives@),
    }
}

/// What tasks stand for.
pub open spec fn entry_views(v: Seq<QuestEntry>) -> Seq<EntryView> {
    Seq::new(v.len(), |i: int| entry_view(v[i]))
}

/// Whether a zone is on the map and has a place there.
pub open spec fn zone_here(z: QuestZone, key: Seq<char>) -> bool {
    z.map@ == key && z.pos is Some
}

/// The markers of the first `n` zones of an objective.
pub open spec fn zone_quest_marks(t: QuestTask, o: QuestObjective, key: Seq<char>, n: nat) -> Seq<Mark>
    decreases n,
{
    if n == 0 {
        seq![]
    } else {
        let rest = zone_quest_marks(t, o, key, (n - 1) as nat);
        let z = o.zones@[n - 1];
        if zone_here(z, key) {
            rest.push(
                Mark { task: Some(t.id@), ..mark(PoiLayer::Quest, z.pos->0, quest_card(t, o)) },
            )
        } else {
            rest
        }
    }
}

/// The walls of the first `n` zones of an objective.
pub open spec fn zone_quest_walls(t: QuestTask, o: QuestObjective, key: Seq<char>, n: nat) -> Seq<WallMark>
    decreases n,
{
    if n == 0 {
        seq![]
    } else {
        let rest = zone_quest_walls(t, o, key, (n - 1) as nat);
        let z = o.zones@[n - 1];
        if zone_here(z, key) && z.outline@.len() >= 3 {
            rest.push(
                WallMark {
                    layer: PoiLayer::Quest,
                    outline: z.outline@,
                    color: look(PoiLayer::Quest).color,
                    active: true,
                    task: Some(t.id@),
                },
            )
        } else {
            rest
        }
    }
}

/// The first `n` zones of an objective, those on the map.
pub open spec fn zones_here(o: QuestObjective, key: Seq<char>, n: nat) -> Seq<ZoneView>
    decreases n,
{
    if n == 0 {
        seq![]
    } else {
        let rest = zones_here(o, key, (n - 1) as nat);
        let z = o.zones@[n - 1];
        if zone_here(z, key) {
            rest.push(ZoneView { pos: z.pos->0, outline: z.outline@, top: z.top })
        } else {
            rest
        }
    }
}

/// The markers of the first `n` objectives of a task.
pub open spec fn obj_quest_marks(t: QuestTask, key: Seq<char>, n: nat) -> Seq<Mark>
    decreases n,
{
    if n == 0 {
        seq![]
    } else {
        let o = t.objectives@[n - 1];
        obj_quest_marks(t, key, (n - 1) as nat) + zone_quest_marks(t, o, key, o.zones@.len())
    }
}

/// The walls of the first `n` objectives of a task.
pub open spec fn obj_quest_walls(t: QuestTask, key: Seq<char>, n: nat) -> Seq<WallMark>
    decreases n,
{
    if n == 0 {
        seq![]
    } else {
        let o = t.objectives@[n - 1];
        obj_quest_walls(t, key, (n - 1) as nat) + zone_quest_walls(t, o, key, o.zones@.len())
    }
}

/// The first `n` objectives of a task, those with a zone on the map.
pub open spec fn objs_here(t: QuestTask, key: Seq<char>, n: nat) -> Seq<ObjView>
    decreases n,
{
    if n == 0 {
        seq![]
    } else {
        let rest = objs_here(t, key, (n - 1) as nat);
        let o = t.objectives@[n - 1];
        let zones = zones_here(o, key, o.zones@.len());
        if zones.len() > 0 {
            rest.push(ObjView { desc: o.desc@, zones })
        } else {
            rest
        }
    }
}

/// The markers of the first `n` tasks.
pub open spec fn quest_marks(ts: Seq<QuestTask>, key: Seq<char>, n: nat) -> Seq<Mark>
    decreases n,
{
    if n == 0 {
        seq![]
    } else {
        quest_marks(ts, key, (n - 1) as nat) + obj_quest_marks(
            ts[n - 1],
            key,
            ts[n - 1].objectives@.len(),
        )
    }
}

/// The walls of the first `n` tasks.
pub open spec fn quest_walls(ts: Seq<QuestTask>, key: Seq<char>, n: nat) -> Seq<WallMark>
    decreases n,
{
    if n == 0 {
        seq![]
    } else {
        quest_walls(ts, key, (n - 1) as nat) + obj_quest_walls(
            ts[n - 1],
            key,
            ts[n - 1].objectives@.len(),
        )
    }
}

/// The first `n` tasks, those with an objective on the map.
pub open spec fn quests_here(ts: Seq<QuestTask>, key: Seq<char>, n: nat) -> Seq<EntryView>
    decreases n,
{
    if n == 0 {
        seq![]
    } else {
        let rest = quests_here(ts, key, (n - 1) as nat);
        let t = ts[n - 1];
        let objectives = objs_here(t, key, t.objectives@.len());
        if objectives.len() > 0 {
            rest.push(
                EntryView {
                    id: t.id@,
                    name: t.name@,
                    trader: t.trader@,
                    min_level: t.min_level,
                    kappa: t.kappa,
                    lk: t.lk,
                    requires_tasks: texts(t.requires_tasks@),
                    objectives,
                },
            )
        } else {
            rest
        }
    }
}

fn mark_objective(
    t: &QuestTask,
    o: &QuestObjective,
    key: &str,
    out: &mut Vec<Marker>,
    walls: &mut Vec<Wall>,
) -> (zones: Vec<QuestZoneW>)
    ensures
        marks(final(out)@) == marks(old(out)@) + zone_quest_marks(*t, *o, key@, o.zones@.len()),
        wall_marks(final(walls)@) == wall_marks(old(walls)@) + zone_quest_walls(
            *t,
            *o,
            key@,
            o.zones@.len(),
        ),
        zone_views(zones@) == zones_here(*o, key@, o.zones@.len()),
{
    let ghost m0 = marks(out@);
    let ghost w0 = wall_marks(walls@);
    let mut zones: Vec<QuestZoneW> = Vec::new();
    let n: usize = o.zones.len();
    let mut i: usize = 0;
    proof {
        assert(m0 + zone_quest_marks(*t, *o, key@, 0) =~= m0);
        assert(w0 + zone_quest_walls(*t, *o, key@, 0) =~= w0);
        assert(zone_views(zones@) =~= zones_here(*o, key@, 0));
    }
    while i < n
        invariant
            i <= n,
            n == o.zones@.len(),
            marks(out@) == m0 + zone_quest_marks(*t, *o, key@, i as nat),
            wall_marks(walls@) == w0 + zone_quest_walls(*t, *o, key@, i as nat),
            zone_views(zones@) == zones_here(*o, key@, i as nat),
        decreases n - i,
    {
        let z = &o.zones[i];
        if same(z.map.as_str(), key) {
            if let Some(p) = z.pos {
                let mut m = marker(PoiLayer::Quest, p, quest_info(t, o));
                m.task = Some(QuestMarkerTask(t.id.as_str().to_owned()));
                add_marker(out, m);
                proof {
                    assert(m0 + zone_quest_marks(*t, *o, key@, (i + 1) as nat) =~= (m0
                        + zone_quest_marks(*t, *o, key@, i as nat)).push(m@));
                }
                if z.outline.len() >= 3 {
                    let w = Wall {
                        layer: PoiLayer::Quest,
                        outline: copy_points(&z.outline),
                        color: poi_look(PoiLayer::Quest).color,
                        active: true,
                        task: Some(QuestMarkerTask(t.id.as_str().to_owned())),
                    };
                    add_wall(walls, w);
                    proof {
                        assert(w0 + zone_quest_walls(*t, *o, key@, (i + 1) as nat) =~= (w0
                            + zone_quest_walls(*t, *o, key@, i as nat)).push(w@));
                    }
                }
                let ghost before = zones@;
                zones.push(QuestZoneW { pos: p, outline: copy_points(&z.outline), top: z.top });
                proof {
                    assert(zone_views(zones@) =~= zone_views(before).push(
                        ZoneView { pos: p, outline: z.outline@, top: z.top },
                    ));
                }
            }
        }
        i = i + 1;
    }
    zones
}

fn mark_task(t: &QuestTask, key: &str, out: &mut Vec<Marker>, walls: &mut Vec<Wall>) -> (objs: Vec<
    QuestObj,
>)
    ensures
        marks(final(out)@) == marks(old(out)@) + obj_quest_marks(*t, key@, t.objectives@.len()),
        wall_marks(final(walls)@) == wall_marks(old(walls)@) + obj_quest_walls(
            *t,
            key@,
            t.objectives@.len(),
        ),
        obj_views(objs@) == objs_here(*t, key@, t.objectives@.len()),
{
    let ghost m0 = marks(out@);
    let ghost w0 = wall_marks(walls@);
    let mut objs: Vec<QuestObj> = Vec::new();
    let n: usize = t.objectives.len();
    let mut i: usize = 0;
    proof {
        assert(m0 + obj_quest_marks(*t, key@, 0) =~= m0);
        assert(w0 + obj_quest_walls(*t, key@, 0) =~= w0);
        assert(obj_views(objs@) =~= objs_here(*t, key@, 0));
    }
    while i < n
        invariant
            i <= n,
            n == t.objectives@.len(),
            marks(out@) == m0 + obj_quest_marks(*t, key@, i as nat),
            wall_marks(walls@) == w0 + obj_quest_walls(*t, key@, i as nat),
            obj_views(objs@) == objs_here(*t, key@, i as nat),
        decreases n - i,
    {
        let o = &t.objectives[i];
        let zones = mark_objective(t, o, key, out, walls);
        proof {
            assert(m0 + obj_quest_marks(*t, key@, (i + 1) as nat) =~= (m0 + obj_quest_marks(
                *t,
                key@,
                i as nat,
            )) + zone_quest_marks(*t, *o, key@, o.zones@.len()));
            assert(w0 + obj_quest_walls(*t, key@, (i + 1) as nat) =~= (w0 + obj_quest_walls(
                *t,
                key@,
                i as nat,
            )) + zone_quest_walls(*t, *o, key@, o.zones@.len()));
            assert(zone_views(zones@).len() == zones@.len());
        }
        if zones.len() > 0 {
            let ghost before = objs@;
            let ghost found = zone_views(zones@);
            objs.push(QuestObj { desc: o.desc.as_str().to_owned(), zones });
            proof {
                assert(obj_views(objs@) =~= obj_views(before).push(
                    ObjView { desc: o.desc@, zones: found },
                ));
            }
        }
        i = i + 1;
    }
    objs
}

/// Mark the objectives of tasks on the map `key`, and list the tasks that have one.
pub fn mark_quests(ts: &Vec<QuestTask>, key: &str, out: &mut Vec<Marker>, walls: &mut Vec<Wall>) -> (r: QuestData)
    ensures
        marks(final(out)@) == marks(old(out)@) + quest_marks(ts@, key@, ts@.len()),
        wall_marks(final(walls)@) == wall_marks(old(walls)@) + quest_walls(ts@, key@, ts@.len()),
        entry_views(r.tasks@) == quests_here(ts@, key@, ts@.len()),
{
    let ghost m0 = marks(out@);
    let ghost w0 = wall_marks(walls@);
    let mut tasks: Vec<QuestEntry> = Vec::new();
    let n: usize = ts.len();
    let mut i: usize = 0;
    proof {
        assert(m0 + quest_marks(ts@, key@, 0) =~= m0);
        assert(w0 + quest_walls(ts@, key@, 0) =~= w0);
        assert(entry_views(tasks@) =~= quests_here(ts@, key@, 0));
    }
    while i < n
        invariant
            i <= n,
            n == ts@.len(),
            marks(out@) == m0 + quest_marks(ts@, key@, i as nat),
            wall_marks(walls@) == w0 + quest_walls(ts@, key@, i as nat),
            entry_views(tasks@) == quests_here(ts@, key@, i as nat),
        decreases n - i,
    {
        let t = &ts[i];
        let objectives = mark_task(t, key, out, walls);
        proof {
            assert(m0 + quest_marks(ts@, key@, (i + 1) as nat) =~= (m0 + quest_marks(
                ts@,
                key@,
                i as nat,
            )) + obj_quest_marks(*t, key@, t.objectives@.len()));
            assert(w0 + quest_walls(ts@, key@, (i + 1) as nat) =~= (w0 + quest_walls(
                ts@,
                key@,
                i as nat,
            )) + obj_quest_walls(*t, key@, t.objectives@.len()));
            assert(obj_views(objectives@).len() == objectives@.len());
        }
        if objectives.len() > 0 {
            let ghost before = tasks@;
            let e = QuestEntry {
                id: t.id.as_str().to_owned(),
                name: t.name.as_str().to_owned(),
                trader: t.trader.as_str().to_owned(),
                min_level: t.min_level,
                kappa: t.kappa,
                lk: t.lk,
                requires_tasks: copy_texts(&t.requires_tasks),
                objectives,
            };
            tasks.push(e);
            proof {
                assert(entry_views(tasks@) =~= entry_views(before).push(entry_view(e)));
            }
        }
        i = i + 1;
    }
    QuestData { tasks }
}

/// Whether the outlines of a task's zones are drawn: only while the task is followed.
pub fn quest_outlines_visible(active: &Vec<String>, task: &str) -> (r: bool)
    ensures
        r == texts(active@).contains(task@),
{
    holds(active, task)
}

/// Whether a zone's footprint can be drawn as a line.
pub fn quest_outline_drawn(z: &QuestZoneW) -> (r: bool)
    ensures
        r == (z.outline@.len() >= 2),
{
    z.outline.len() >= 2
}

/// A task is listed only where it has a marker on the map: the catalogue and the markers agree.
pub proof fn listed_tasks_are_marked(ts: Seq<QuestTask>, key: Seq<char>, n: nat, k: int)
    requires
        n <= ts.len(),
        0 <= k < quests_here(ts, key, n).len(),
    ensures
        exists|j: int|
            0 <= j < quest_marks(ts, key, n).len() && (#[trigger] quest_marks(ts, key, n)[j]).task == Some(
                quests_here(ts, key, n)[k].id,
            ),
    decreases n,
{
    let t = ts[n - 1];
    let rest = quests_here(ts, key, (n - 1) as nat);
    let head = quest_marks(ts, key, (n - 1) as nat);
    let tail = obj_quest_marks(t, key, t.objectives@.len());
    if k < rest.len() {
        listed_tasks_are_marked(ts, key, (n - 1) as nat, k);
        let j = choose|j: int|
            0 <= j < head.len() && (#[trigger] head[j]).task == Some(rest[k].id);
        assert(quest_marks(ts, key, n)[j] == head[j]);
    } else {
        objectives_are_marked(t, key, t.objectives@.len());
        let j = head.len() as int;
        assert(quest_marks(ts, key, n)[j] == tail[0]);
    }
}

/// An objective with a zone on the map has a marker, and every marker of a task carries its id.
proof fn objectives_are_marked(t: QuestTask, key: Seq<char>, n: nat)
    requires
        n <= t.objectives@.len(),
    ensures
        objs_here(t, key, n).len() > 0 ==> obj_quest_marks(t, key, n).len() > 0,
        forall|j: int|
            0 <= j < obj_quest_marks(t, key, n).len() ==> (#[trigger] obj_quest_marks(t, key, n)[j]).task
                == Some(t.id@),
    decreases n,
{
    if n > 0 {
        let o = t.objectives@[n - 1];
        objectives_are_marked(t, key, (n - 1) as nat);
        zones_are_marked(t, o, key, o.zones@.len());
        let head = obj_quest_marks(t, key, (n - 1) as nat);
        let tail = zone_quest_marks(t, o, key, o.zones@.len());
        assert forall|j: int| 0 <= j < (head + tail).len() implies (#[trigger] (head + tail)[j]).task
            == Some(t.id@) by {
            if j < head.len() {
                assert((head + tail)[j] == head[j]);
            } else {
                assert((head + tail)[j] == tail[j - head.len()]);
            }
        }
    }
}

/// There is one marker for each zone on the map, and each carries the task's id.
proof fn zones_are_marked(t: QuestTask, o: QuestObjective, key: Seq<char>, n: nat)
    requires
        n <= o.zones@.len(),
    ensures
        zone_quest_marks(t, o, key, n).len() == zones_here(o, key, n).len(),
        forall|j: int|
            0 <= j < zone_quest_marks(t, o, key, n).len() ==> (#[trigger] zone_quest_marks(
                t,
                o,
                key,
                n,
            )[j]).task == Some(t.id@),
    decreases n,
{
    if n > 0 {
        zones_are_marked(t, o, key, (n - 1) as nat);
    }
}

} // verus!
