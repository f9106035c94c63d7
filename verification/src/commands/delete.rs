//! `delete`: moves tasks, projects and areas to the trash.

use vstd::prelude::*;
use crate::commands::{CommandPlan, object_is};
use crate::commands::mark::{done_line, done_line_text};
use crate::common::icons;
use crate::json::JsonValue;
use crate::keymap::KeyMap;
use crate::lookup::{resolved, deref_opt, deref_all};
use crate::store::{Task, Area};
use crate::text::{concat, same_text, views};
use crate::things::ThingsStore;
use crate::wire::{EntityType, OperationType, WireObject, entity_of};

verus! {

/// The arguments of `delete`: the ids (or id prefixes) of the items.
pub struct DeleteArgs {
    pub item_ids: Vec<String>,
}

/// A record to delete: its id, entity kind and title.
pub type Doomed = (Seq<char>, EntityType, Seq<char>);

/// Some record of `ts` has the id `u`.
pub open spec fn doomed_listed(ts: Seq<Doomed>, u: Seq<char>) -> bool {
    exists|a: int| 0 <= a < ts.len() && (#[trigger] ts[a]).0 == u
}

/// The message for an id that names both a task and an area.
pub open spec fn both_text(ident: Seq<char>) -> Seq<char> {
    "Ambiguous identifier '"@ + ident + "' (matches task and area)."@
}

/// The message for an id that is an ambiguous prefix of tasks and of areas.
pub open spec fn many_text(ident: Seq<char>) -> Seq<char> {
    "Ambiguous identifier '"@ + ident + "' (matches multiple tasks and areas)."@
}

/// The message for an id that names neither a task nor an area.
pub open spec fn unresolved_text(
    ident: Seq<char>,
    rt: (Option<Task>, Seq<char>, Seq<Task>),
    ra: (Option<Area>, Seq<char>, Seq<Area>),
) -> Seq<char> {
    if rt.2.len() > 0 && ra.2.len() > 0 {
        many_text(ident)
    } else if rt.2.len() > 0 {
        rt.1
    } else if ra.2.len() > 0 {
        ra.1
    } else {
        "Item not found: "@ + ident
    }
}

/// Resolves each id in turn, among the tasks and among the areas: an id that
/// names one record adds it (once, and a task only if it is not already in
/// the trash); any other id adds its message.
pub open spec fn delete_targets(
    tasks: Map<Seq<char>, Task>,
    task_ids: Seq<String>,
    areas: Map<Seq<char>, Area>,
    area_ids: Seq<String>,
    idents: Seq<Seq<char>>,
) -> (Seq<Seq<char>>, Seq<Doomed>)
    decreases idents.len(),
{
    if idents.len() == 0 {
        (seq![], seq![])
    } else {
        let (notes, ts) = delete_targets(tasks, task_ids, areas, area_ids, idents.drop_last());
        let ident = idents.last();
        let rt = resolved(tasks, task_ids, ident, "Task"@);
        let ra = resolved(areas, area_ids, ident, "Area"@);
        match rt.0 {
            Some(t) => match ra.0 {
                Some(_) => (notes.push(both_text(ident)), ts),
                None => if t.trashed {
                    (notes.push("Item already deleted: "@ + t.title@), ts)
                } else if doomed_listed(ts, t.uuid@) {
                    (notes, ts)
                } else {
                    (notes, ts.push((t.uuid@, entity_of(t.entity), t.title@)))
                },
            },
            None => match ra.0 {
                Some(a) => if doomed_listed(ts, a.uuid@) {
                    (notes, ts)
                } else {
                    (notes, ts.push((a.uuid@, EntityType::Area3, a.title@)))
                },
                None => (notes.push(unresolved_text(ident, rt, ra)), ts),
            },
        }
    }
}

/// The label of a deleted record's line.
pub open spec fn deleted_label() -> Seq<char> {
    "×"@ + " Deleted"@
}

/// What `delete` does: report the messages; when some record is left,
/// delete each (one object under its id) and print a line for each.
pub open spec fn delete_plan(
    p: CommandPlan,
    tasks: Map<Seq<char>, Task>,
    task_ids: Seq<String>,
    areas: Map<Seq<char>, Area>,
    area_ids: Seq<String>,
    args: DeleteArgs,
    no_color: bool,
) -> bool {
    let g = delete_targets(tasks, task_ids, areas, area_ids, views(args.item_ids@));
    let ts = g.1;
    &&& views(p.notes@) == g.0
    &&& if ts.len() == 0 {
        p.changes is None && p.done_lines@.len() == 0
    } else {
        &&& p.changes matches Some(w) && w.wf() && (forall|k: Seq<char>| #[trigger] w@.contains_key(k) <==> doomed_listed(ts, k))
            && (forall|a: int| 0 <= a < ts.len() ==> object_is(
            w@[(#[trigger] ts[a]).0],
            OperationType::Delete,
            Some(ts[a].1),
            Map::empty(),
        ))
        &&& p.done_lines@.len() == ts.len()
        &&& forall|a: int| 0 <= a < ts.len() ==> (#[trigger] p.done_lines@[a])@ == done_line(deleted_label(), ts[a].2, ts[a].0, no_color)
        &&& p.fail_prefix@ == "Failed to delete items: "@
    }
}

/// The spec views of the records gathered so far.
pub open spec fn doomed_views(v: Seq<(String, EntityType, String)>) -> Seq<Doomed> {
    v.map_values(|x: (String, EntityType, String)| (x.0@, x.1, x.2@))
}

fn doomed_has(ts: &Vec<(String, EntityType, String)>, u: &str) -> (r: bool)
    ensures
        r == doomed_listed(doomed_views(ts@), u@),
{
    let ghost dv = doomed_views(ts@);
    let mut a: usize = 0;
    while a < ts.len()
        invariant
            a <= ts@.len(),
            dv == doomed_views(ts@),
            forall|k: int| 0 <= k < a ==> (#[trigger] dv[k]).0 != u@,
        decreases ts@.len() - a,
    {
        if same_text(ts[a].0.as_str(), u) {
            proof {
                assert(dv[a as int].0 == u@);
            }
            return true;
        }
        a += 1;
    }
    false
}

fn both_message(ident: &str) -> (r: String)
    ensures
        r@ == both_text(ident@),
{
    concat(concat("Ambiguous identifier '", ident).as_str(), "' (matches task and area).")
}

fn unresolved_message(
    ident: &str,
    rt: &(Option<&Task>, String, Vec<&Task>),
    ra: &(Option<&Area>, String, Vec<&Area>),
) -> (r: String)
    ensures
        r@ == unresolved_text(ident@, (deref_opt(rt.0), rt.1@, deref_all(rt.2@)), (deref_opt(ra.0), ra.1@, deref_all(ra.2@))),
{
    if rt.2.len() > 0 && ra.2.len() > 0 {
        concat(concat("Ambiguous identifier '", ident).as_str(), "' (matches multiple tasks and areas).")
    } else if rt.2.len() > 0 {
        rt.1.clone()
    } else if ra.2.len() > 0 {
        ra.1.clone()
    } else {
        concat("Item not found: ", ident)
    }
}

fn gather_doomed(args: &DeleteArgs, store: &ThingsStore) -> (r: (Vec<String>, Vec<(String, EntityType, String)>))
    requires
        store.wf(),
    ensures
        (views(r.0@), doomed_views(r.1@)) == delete_targets(
            store.tasks_by_uuid@,
            store.task_ids_sorted@,
            store.areas_by_uuid@,
            store.area_ids_sorted@,
            views(args.item_ids@),
        ),
{
    let ghost idents = views(args.item_ids@);
    let mut notes: Vec<String> = Vec::new();
    let mut ts: Vec<(String, EntityType, String)> = Vec::new();
    let mut i: usize = 0;
    proof {
        assert(idents.take(0) =~= seq![]);
        assert(views(notes@) =~= seq![]);
        assert(doomed_views(ts@) =~= seq![]);
    }
    while i < args.item_ids.len()
        invariant
            store.wf(),
            idents == views(args.item_ids@),
            i <= args.item_ids@.len(),
            (views(notes@), doomed_views(ts@)) == delete_targets(
                store.tasks_by_uuid@,
                store.task_ids_sorted@,
                store.areas_by_uuid@,
                store.area_ids_sorted@,
                idents.take(i as int),
            ),
        decreases args.item_ids@.len() - i,
    {
        let ident = args.item_ids[i].as_str();
        let rt = store.resolve_task_identifier(ident);
        let ra = store.resolve_area_identifier(ident);
        proof {
            assert(idents.take(i + 1).drop_last() =~= idents.take(i as int));
            assert(idents.take(i + 1).last() == ident@);
        }
        let ghost nv = views(notes@);
        let ghost dv = doomed_views(ts@);
        match rt.0 {
            Some(t) => {
                if ra.0.is_some() {
                    notes.push(both_message(ident));
                    proof {
                        assert(views(notes@) =~= nv.push(both_text(ident@)));
                    }
                } else if t.trashed {
                    notes.push(concat("Item already deleted: ", t.title.as_str()));
                    proof {
                        assert(views(notes@) =~= nv.push("Item already deleted: "@ + t.title@));
                    }
                } else if !doomed_has(&ts, t.uuid.as_str()) {
                    ts.push((t.uuid.clone(), EntityType::from(t.entity.clone()), t.title.clone()));
                    proof {
                        assert(doomed_views(ts@) =~= dv.push((t.uuid@, entity_of(t.entity), t.title@)));
                    }
                }
            },
            None => {
                match ra.0 {
                    Some(a) => {
                        if !doomed_has(&ts, a.uuid.as_str()) {
                            ts.push((a.uuid.clone(), EntityType::Area3, a.title.clone()));
                            proof {
                                assert(doomed_views(ts@) =~= dv.push((a.uuid@, EntityType::Area3, a.title@)));
                            }
                        }
                    },
                    None => {
                        let m = unresolved_message(ident, &rt, &ra);
                        notes.push(m);
                        proof {
                            assert(views(notes@) =~= nv.push(m@));
                        }
                    },
                }
            },
        }
        i += 1;
    }
    proof {
        assert(idents.take(idents.len() as int) =~= idents);
    }
    (notes, ts)
}

/// `delete` deletes each record at most once, however often it is named.
pub proof fn lemma_doomed_distinct(
    tasks: Map<Seq<char>, Task>,
    task_ids: Seq<String>,
    areas: Map<Seq<char>, Area>,
    area_ids: Seq<String>,
    idents: Seq<Seq<char>>,
)
    ensures
        forall|a: int, b: int|
            0 <= a < delete_targets(tasks, task_ids, areas, area_ids, idents).1.len()
                && 0 <= b < delete_targets(tasks, task_ids, areas, area_ids, idents).1.len() && a != b
                ==> (#[trigger] delete_targets(tasks, task_ids, areas, area_ids, idents).1[a]).0
                    != (#[trigger] delete_targets(tasks, task_ids, areas, area_ids, idents).1[b]).0,
    decreases idents.len(),
{
    if idents.len() > 0 {
        lemma_doomed_distinct(tasks, task_ids, areas, area_ids, idents.drop_last());
        let ts = delete_targets(tasks, task_ids, areas, area_ids, idents.drop_last()).1;
        let ts2 = delete_targets(tasks, task_ids, areas, area_ids, idents).1;
        assert forall|a: int, b: int| 0 <= a < ts2.len() && 0 <= b < ts2.len() && a != b implies (#[trigger] ts2[a]).0 != (#[trigger] ts2[b]).0 by {
            if ts2.len() > ts.len() {
                assert(ts2 == ts.push(ts2.last()));
                assert(!doomed_listed(ts, ts2.last().0));
                if a == ts.len() {
                    assert(ts2[b] == ts[b]);
                } else if b == ts.len() {
                    assert(ts2[a] == ts[a]);
                } else {
                    assert(ts2[a] == ts[a] && ts2[b] == ts[b]);
                }
            }
        }
    }
}

fn write_deletes(ts: &Vec<(String, EntityType, String)>, no_color: bool) -> (r: (KeyMap<WireObject>, Vec<String>))
    requires
        forall|a: int, b: int| 0 <= a < ts@.len() && 0 <= b < ts@.len() && a != b ==> (#[trigger] ts@[a]).0@ != (#[trigger] ts@[b]).0@,
    ensures
        r.0.wf(),
        forall|k: Seq<char>| #[trigger] r.0@.contains_key(k) <==> doomed_listed(doomed_views(ts@), k),
        forall|a: int| 0 <= a < ts@.len() ==> object_is(
            r.0@[(#[trigger] ts@[a]).0@],
            OperationType::Delete,
            Some(ts@[a].1),
            Map::empty(),
        ),
        r.1@.len() == ts@.len(),
        forall|a: int| 0 <= a < ts@.len() ==> (#[trigger] r.1@[a])@ == done_line(deleted_label(), ts@[a].2@, ts@[a].0@, no_color),
{
    let label = concat(icons().deleted, " Deleted");
    let mut w: KeyMap<WireObject> = KeyMap::new();
    let mut lines: Vec<String> = Vec::new();
    let mut i: usize = 0;
    while i < ts.len()
        invariant
            i <= ts@.len(),
            label@ == deleted_label(),
            forall|a: int, b: int| 0 <= a < ts@.len() && 0 <= b < ts@.len() && a != b ==> (#[trigger] ts@[a]).0@ != (#[trigger] ts@[b]).0@,
            w.wf(),
            forall|k: Seq<char>| #[trigger] w@.contains_key(k) <==> doomed_listed(doomed_views(ts@.take(i as int)), k),
            forall|a: int| 0 <= a < i ==> object_is(
                w@[(#[trigger] ts@[a]).0@],
                OperationType::Delete,
                Some(ts@[a].1),
                Map::empty(),
            ),
            lines@.len() == i,
            forall|a: int| 0 <= a < i ==> (#[trigger] lines@[a])@ == done_line(deleted_label(), ts@[a].2@, ts@[a].0@, no_color),
        decreases ts@.len() - i,
    {
        let t = &ts[i];
        let props: KeyMap<JsonValue> = KeyMap::new();
        let obj = WireObject {
            operation_type: OperationType::Delete,
            entity_type: Some(t.1.duplicate()),
            properties: props,
        };
        let ghost before = w@;
        w.insert(t.0.clone(), obj);
        lines.push(done_line_text(label.as_str(), t.2.as_str(), t.0.as_str(), no_color));
        proof {
            let da = doomed_views(ts@.take(i + 1));
            let db = doomed_views(ts@.take(i as int));
            assert forall|k: Seq<char>| #[trigger] w@.contains_key(k) <==> doomed_listed(da, k) by {
                if doomed_listed(da, k) {
                    let a = choose|a: int| 0 <= a < da.len() && (#[trigger] da[a]).0 == k;
                    if a < i {
                        assert(db[a].0 == k);
                    }
                }
                if before.contains_key(k) {
                    let a = choose|a: int| 0 <= a < db.len() && (#[trigger] db[a]).0 == k;
                    assert(da[a].0 == k);
                }
                if k == t.0@ {
                    assert(da[i as int].0 == k);
                }
            }
            assert forall|a: int| 0 <= a < i + 1 implies object_is(
                w@[(#[trigger] ts@[a]).0@],
                OperationType::Delete,
                Some(ts@[a].1),
                Map::empty(),
            ) by {
                if a < i {
                    assert(ts@[a].0@ != ts@[i as int].0@);
                }
            }
        }
        i += 1;
    }
    proof {
        assert(ts@.take(ts@.len() as int) =~= ts@);
    }
    (w, lines)
}

impl DeleteArgs {
    /// What `delete` does with these arguments.
    pub fn plan(&self, store: &ThingsStore, no_color: bool) -> (p: CommandPlan)
        requires
            store.wf(),
        ensures
            delete_plan(
                p,
                store.tasks_by_uuid@,
                store.task_ids_sorted@,
                store.areas_by_uuid@,
                store.area_ids_sorted@,
                *self,
                no_color,
            ),
    {
        let (notes, ts) = gather_doomed(self, store);
        let ghost g = delete_targets(
            store.tasks_by_uuid@,
            store.task_ids_sorted@,
            store.areas_by_uuid@,
            store.area_ids_sorted@,
            views(self.item_ids@),
        );
        if ts.len() == 0 {
            return CommandPlan { notes, changes: None, done_lines: Vec::new(), fail_prefix: String::new() };
        }
        proof {
            lemma_doomed_distinct(
                store.tasks_by_uuid@,
                store.task_ids_sorted@,
                store.areas_by_uuid@,
                store.area_ids_sorted@,
                views(self.item_ids@),
            );
            assert forall|a: int, b: int| 0 <= a < ts@.len() && 0 <= b < ts@.len() && a != b implies (#[trigger] ts@[a]).0@ != (#[trigger] ts@[b]).0@ by {
                assert(g.1[a].0 == ts@[a].0@ && g.1[b].0 == ts@[b].0@);
            }
        }
        let (w, lines) = write_deletes(&ts, no_color);
        proof {
            assert forall|a: int| 0 <= a < g.1.len() implies object_is(
                w@[(#[trigger] g.1[a]).0],
                OperationType::Delete,
                Some(g.1[a].1),
                Map::empty(),
            ) by {
                assert(g.1[a].0 == ts@[a].0@);
            }
            assert forall|a: int| 0 <= a < g.1.len() implies (#[trigger] lines@[a])@ == done_line(deleted_label(), g.1[a].2, g.1[a].0, no_color) by {
                assert(g.1[a] == (ts@[a].0@, ts@[a].1, ts@[a].2@));
            }
        }
        CommandPlan {
            notes,
            changes: Some(w),
            done_lines: lines,
            fail_prefix: crate::text::owned("Failed to delete items: "),
        }
    }
}

} // verus!
