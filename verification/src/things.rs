//! The store: the tasks, areas and tags read from the replayed state, with
//! the indexes and the queries the commands use.

use vstd::prelude::*;
use crate::keymap::{KeyMap, key_index, distinct_keys, lemma_key_index};
use crate::props::{Props, prop_str_list, first_of, opt_view};
use crate::replay::{RawState, ObjectView, state_view};
use crate::store::{
    Task, Area, Tag, ChecklistItem, ProjectProgress, task_parsed, area_parsed, tag_parsed,
    checklist_parsed, record_kind, task_entity_name, distinct_item_ids, item_of_task, parse_task,
    parse_area, parse_tag, parse_checklist_item, checklist_for, classify, entity_name_for_task,
};
use crate::prefixes::{id_set, short_ids_of, shortest_unique_prefixes};
use crate::sorting::{sorted_texts, sort_texts, permutes, is_perm_map, hits};
use crate::text::{same_text, starts_with};
use crate::wire::{EntityType, TaskStatus, TaskType};

verus! {

/// The replayed state as the store reads it: objects by id.
pub type StateMap = Map<Seq<char>, ObjectView>;

/// The task id a checklist item's properties point to (`ts`), or the empty id.
pub open spec fn item_task_of(p: Props) -> Seq<char> {
    match first_of(prop_str_list(p, "ts"@)) {
        Some(s) => s,
        None => seq![],
    }
}

/// `c` is read from a checklist object of `s` and belongs to the task `k`.
pub open spec fn parsed_item_of(s: StateMap, k: Seq<char>, c: ChecklistItem) -> bool {
    &&& s.contains_key(c.uuid@)
    &&& record_kind(s[c.uuid@].0) == 3
    &&& checklist_parsed(c, c.uuid@, s[c.uuid@].1)
    &&& c.task_uuid@ == k
}

/// `items` are the checklist items of task `k` in `s`, each once, by index.
pub open spec fn checklist_matches(items: Seq<ChecklistItem>, s: StateMap, k: Seq<char>) -> bool {
    &&& distinct_item_ids(items)
    &&& forall|a: int, b: int|
        0 <= a < b < items.len() ==> (#[trigger] items[a]).index <= (#[trigger] items[b]).index
    &&& forall|a: int| 0 <= a < items.len() ==> parsed_item_of(s, k, #[trigger] items[a])
    &&& forall|j: Seq<char>|
        #[trigger] s.contains_key(j) && record_kind(s[j].0) == 3 && item_task_of(s[j].1) == k
            ==> exists|a: int| 0 <= a < items.len() && (#[trigger] items[a]).uuid@ == j
}

/// The tasks of the store are those read from `s`.
pub open spec fn tasks_built(tasks: Map<Seq<char>, Task>, s: StateMap) -> bool {
    &&& forall|k: Seq<char>|
        #[trigger] tasks.contains_key(k) ==> s.contains_key(k) && record_kind(s[k].0) == 0
            && task_parsed(tasks[k], k, s[k].1, task_entity_name(s[k].0))
            && checklist_matches(tasks[k].checklist_items@, s, k)
    &&& forall|k: Seq<char>| #[trigger] s.contains_key(k) && record_kind(s[k].0) == 0 ==> tasks.contains_key(k)
}

/// The areas of the store are those read from `s`.
pub open spec fn areas_built(areas: Map<Seq<char>, Area>, s: StateMap) -> bool {
    &&& forall|k: Seq<char>|
        #[trigger] areas.contains_key(k) ==> s.contains_key(k) && record_kind(s[k].0) == 1
            && area_parsed(areas[k], k, s[k].1)
    &&& forall|k: Seq<char>| #[trigger] s.contains_key(k) && record_kind(s[k].0) == 1 ==> areas.contains_key(k)
}

/// The tags of the store are those read from `s`.
pub open spec fn tags_built(tags: Map<Seq<char>, Tag>, s: StateMap) -> bool {
    &&& forall|k: Seq<char>|
        #[trigger] tags.contains_key(k) ==> s.contains_key(k) && record_kind(s[k].0) == 2
            && tag_parsed(tags[k], k, s[k].1)
    &&& forall|k: Seq<char>| #[trigger] s.contains_key(k) && record_kind(s[k].0) == 2 ==> tags.contains_key(k)
}

/// The title index names, for every non-empty tag title, a tag with that title.
pub open spec fn titles_built(titles: Map<Seq<char>, String>, tags: Map<Seq<char>, Tag>) -> bool {
    &&& forall|t: Seq<char>|
        #[trigger] titles.contains_key(t) ==> t.len() > 0 && tags.contains_key(titles[t]@)
            && tags[titles[t]@].title@ == t
    &&& forall|k: Seq<char>|
        #[trigger] tags.contains_key(k) && tags[k].title@.len() > 0 ==> titles.contains_key(tags[k].title@)
}

/// What the first pass over the state reads.
struct Records {
    tasks: Vec<(String, Task)>,
    areas: KeyMap<Area>,
    tags: KeyMap<Tag>,
    titles: KeyMap<String>,
    items: Vec<ChecklistItem>,
}

spec fn records_read(r: Records, s: StateMap) -> bool {
    &&& r.areas.wf()
    &&& r.tags.wf()
    &&& r.titles.wf()
    &&& areas_built(r.areas@, s)
    &&& tags_built(r.tags@, s)
    &&& titles_built(r.titles@, r.tags@)
    &&& distinct_keys(r.tasks@)
    &&& forall|x: int|
        0 <= x < r.tasks@.len() ==> s.contains_key((#[trigger] r.tasks@[x]).0@) && record_kind(
            s[r.tasks@[x].0@].0,
        ) == 0 && task_parsed(
            r.tasks@[x].1,
            r.tasks@[x].0@,
            s[r.tasks@[x].0@].1,
            task_entity_name(s[r.tasks@[x].0@].0),
        )
    &&& forall|k: Seq<char>|
        #[trigger] s.contains_key(k) && record_kind(s[k].0) == 0 ==> exists|x: int|
            0 <= x < r.tasks@.len() && (#[trigger] r.tasks@[x]).0@ == k
    &&& distinct_item_ids(r.items@)
    &&& forall|a: int|
        0 <= a < r.items@.len() ==> s.contains_key((#[trigger] r.items@[a]).uuid@) && record_kind(
            s[r.items@[a].uuid@].0,
        ) == 3 && checklist_parsed(r.items@[a], r.items@[a].uuid@, s[r.items@[a].uuid@].1)
    &&& forall|k: Seq<char>|
        #[trigger] s.contains_key(k) && record_kind(s[k].0) == 3 ==> exists|a: int|
            0 <= a < r.items@.len() && (#[trigger] r.items@[a]).uuid@ == k
}

/// First pass: reads every object of the state as a task, area, tag or
/// checklist item, by its entity kind.
#[verifier::rlimit(40)]
fn read_records(raw: RawState) -> (r: Records)
    requires
        raw.wf(),
        forall|k: Seq<char>| #[trigger] raw@.contains_key(k) ==> raw@[k].properties.wf(),
    ensures
        records_read(r, state_view(raw@)),
{
    let ghost m = raw@;
    let ghost orig = raw.entries_view();
    proof {
        raw.lemma_entries();
    }
    let mut entries = raw.into_entries();
    let ghost n = orig.len();
    let mut tasks: Vec<(String, Task)> = Vec::new();
    let mut areas: KeyMap<Area> = KeyMap::new();
    let mut tags: KeyMap<Tag> = KeyMap::new();
    let mut titles: KeyMap<String> = KeyMap::new();
    let mut items: Vec<ChecklistItem> = Vec::new();
    while entries.len() > 0
        invariant
            n == orig.len(),
            distinct_keys(orig),
            forall|i: int|
                0 <= i < n ==> m.contains_key(#[trigger] orig[i].0@) && m[orig[i].0@] == orig[i].1,
            forall|k: Seq<char>|
                #[trigger] m.contains_key(k) ==> exists|i: int| 0 <= i < n && #[trigger] orig[i].0@ == k,
            forall|k: Seq<char>| #[trigger] m.contains_key(k) ==> m[k].properties.wf(),
            entries@.len() <= n,
            entries@ == orig.subrange(0, entries@.len() as int),
            areas.wf(),
            tags.wf(),
            titles.wf(),
            forall|k: Seq<char>|
                #[trigger] areas@.contains_key(k) ==> m.contains_key(k) && entries@.len() <= key_index(
                    orig,
                    k,
                ) && record_kind(m[k].entity_type) == 1 && area_parsed(areas@[k], k, m[k].properties@),
            forall|i: int|
                entries@.len() <= i < n && record_kind((#[trigger] orig[i]).1.entity_type) == 1
                    ==> areas@.contains_key(orig[i].0@),
            forall|k: Seq<char>|
                #[trigger] tags@.contains_key(k) ==> m.contains_key(k) && entries@.len() <= key_index(
                    orig,
                    k,
                ) && record_kind(m[k].entity_type) == 2 && tag_parsed(tags@[k], k, m[k].properties@),
            forall|i: int|
                entries@.len() <= i < n && record_kind((#[trigger] orig[i]).1.entity_type) == 2
                    ==> tags@.contains_key(orig[i].0@),
            titles_built(titles@, tags@),
            distinct_keys(tasks@),
            forall|x: int|
                0 <= x < tasks@.len() ==> m.contains_key((#[trigger] tasks@[x]).0@) && entries@.len()
                    <= key_index(orig, tasks@[x].0@) && record_kind(m[tasks@[x].0@].entity_type) == 0
                    && task_parsed(
                    tasks@[x].1,
                    tasks@[x].0@,
                    m[tasks@[x].0@].properties@,
                    task_entity_name(m[tasks@[x].0@].entity_type),
                ),
            forall|i: int|
                entries@.len() <= i < n && record_kind((#[trigger] orig[i]).1.entity_type) == 0
                    ==> exists|x: int| 0 <= x < tasks@.len() && #[trigger] tasks@[x].0@ == orig[i].0@,
            distinct_item_ids(items@),
            forall|a: int|
                0 <= a < items@.len() ==> m.contains_key((#[trigger] items@[a]).uuid@) && entries@.len()
                    <= key_index(orig, items@[a].uuid@) && record_kind(m[items@[a].uuid@].entity_type)
                    == 3 && checklist_parsed(items@[a], items@[a].uuid@, m[items@[a].uuid@].properties@),
            forall|i: int|
                entries@.len() <= i < n && record_kind((#[trigger] orig[i]).1.entity_type) == 3
                    ==> exists|a: int| 0 <= a < items@.len() && #[trigger] items@[a].uuid@ == orig[i].0@,
        decreases entries@.len(),
    {
        let j = entries.len() - 1;
        let (uuid, obj) = entries.pop().unwrap();
        proof {
            assert(orig[j as int] == (uuid, obj));
            lemma_key_index(orig, j as int);
            assert(m[uuid@] == obj);
            assert(entries@ =~= orig.subrange(0, j as int));
        }
        let kind = classify(&obj.entity_type);
        if kind == 0 {
            let entity = entity_name_for_task(&obj.entity_type);
            let mut props = obj.properties;
            let t = parse_task(uuid.as_str(), &mut props, entity.as_str());
            let ghost old_tasks = tasks@;
            proof {
                assert forall|x: int| 0 <= x < old_tasks.len() implies #[trigger] old_tasks[x].0@ != uuid@ by {
                    if old_tasks[x].0@ == uuid@ {
                        assert(key_index(orig, uuid@) == j);
                    }
                }
            }
            tasks.push((uuid, t));
            proof {
                assert forall|i: int|
                    j <= i < n && record_kind((#[trigger] orig[i]).1.entity_type) == 0 implies exists|x: int|
                        0 <= x < tasks@.len() && #[trigger] tasks@[x].0@ == orig[i].0@ by {
                    if i == j {
                        assert(tasks@[old_tasks.len() as int].0@ == orig[i].0@);
                    } else {
                        let x = choose|x: int| 0 <= x < old_tasks.len() && #[trigger] old_tasks[x].0@ == orig[i].0@;
                        assert(tasks@[x] == old_tasks[x]);
                    }
                }
            }
        } else if kind == 1 {
            let a = parse_area(uuid.as_str(), &obj.properties);
            areas.insert(uuid, a);
        } else if kind == 2 {
            let t = parse_tag(uuid.as_str(), &obj.properties);
            let ghost old_tags = tags@;
            if !t.title.as_str().is_empty() {
                let title = t.title.clone();
                let id = uuid.clone();
                titles.insert(title, id);
            }
            tags.insert(uuid, t);
            proof {
                assert(!old_tags.contains_key(uuid@));
                assert forall|k: Seq<char>| #[trigger] old_tags.contains_key(k) implies tags@[k] == old_tags[k] by {}
            }
        } else if kind == 3 {
            let c = parse_checklist_item(uuid.as_str(), &obj.properties);
            let ghost old_items = items@;
            items.push(c);
            proof {
                assert forall|a: int, b: int|
                    0 <= a < items@.len() && 0 <= b < items@.len() && a != b implies #[trigger] items@[a].uuid@
                    != #[trigger] items@[b].uuid@ by {
                    if a == old_items.len() {
                        assert(key_index(orig, items@[b].uuid@) >= j + 1);
                    } else if b == old_items.len() {
                        assert(key_index(orig, items@[a].uuid@) >= j + 1);
                    } else {
                        assert(items@[a] == old_items[a] && items@[b] == old_items[b]);
                    }
                }
                assert forall|i: int|
                    j <= i < n && record_kind((#[trigger] orig[i]).1.entity_type) == 3 implies exists|a: int|
                        0 <= a < items@.len() && #[trigger] items@[a].uuid@ == orig[i].0@ by {
                    if i == j {
                        assert(items@[old_items.len() as int].uuid@ == orig[i].0@);
                    } else {
                        let a = choose|a: int| 0 <= a < old_items.len() && #[trigger] old_items[a].uuid@ == orig[i].0@;
                        assert(items@[a] == old_items[a]);
                    }
                }
            }
        }
    }
    let r = Records { tasks, areas, tags, titles, items };
    proof {
        let s = state_view(m);
        assert forall|k: Seq<char>| #[trigger] s.contains_key(k) && record_kind(s[k].0) == 1 implies r.areas@.contains_key(k) by {
            let i = choose|i: int| 0 <= i < n && #[trigger] orig[i].0@ == k;
        }
        assert forall|k: Seq<char>| #[trigger] s.contains_key(k) && record_kind(s[k].0) == 2 implies r.tags@.contains_key(k) by {
            let i = choose|i: int| 0 <= i < n && #[trigger] orig[i].0@ == k;
        }
        assert forall|k: Seq<char>| #[trigger] s.contains_key(k) && record_kind(s[k].0) == 0 implies exists|x: int|
            0 <= x < r.tasks@.len() && (#[trigger] r.tasks@[x]).0@ == k by {
            let i = choose|i: int| 0 <= i < n && #[trigger] orig[i].0@ == k;
            assert(record_kind(orig[i].1.entity_type) == 0);
            let x = choose|x: int| 0 <= x < tasks@.len() && #[trigger] tasks@[x].0@ == orig[i].0@;
            assert(r.tasks@[x].0@ == k);
        }
        assert forall|k: Seq<char>| #[trigger] s.contains_key(k) && record_kind(s[k].0) == 3 implies exists|a: int|
            0 <= a < r.items@.len() && (#[trigger] r.items@[a]).uuid@ == k by {
            let i = choose|i: int| 0 <= i < n && #[trigger] orig[i].0@ == k;
            assert(record_kind(orig[i].1.entity_type) == 3);
            let a = choose|a: int| 0 <= a < items@.len() && #[trigger] items@[a].uuid@ == orig[i].0@;
            assert(r.items@[a].uuid@ == k);
        }
    }
    r
}

proof fn lemma_items_match(items: Seq<ChecklistItem>, s: StateMap, k: Seq<char>, r: Seq<ChecklistItem>)
    requires
        forall|a: int|
            0 <= a < items.len() ==> s.contains_key((#[trigger] items[a]).uuid@) && record_kind(
                s[items[a].uuid@].0,
            ) == 3 && checklist_parsed(items[a], items[a].uuid@, s[items[a].uuid@].1),
        forall|j: Seq<char>|
            #[trigger] s.contains_key(j) && record_kind(s[j].0) == 3 ==> exists|a: int|
                0 <= a < items.len() && (#[trigger] items[a]).uuid@ == j,
        forall|a: int, b: int| 0 <= a < b < r.len() ==> (#[trigger] r[a]).index <= (#[trigger] r[b]).index,
        forall|a: int| 0 <= a < r.len() ==> item_of_task(items, k, #[trigger] r[a]),
        forall|j: int|
            0 <= j < items.len() && (#[trigger] items[j]).task_uuid@ == k ==> exists|a: int|
                0 <= a < r.len() && #[trigger] r[a] == items[j],
        distinct_item_ids(r),
    ensures
        checklist_matches(r, s, k),
{
    assert forall|a: int| 0 <= a < r.len() implies parsed_item_of(s, k, #[trigger] r[a]) by {
        let j = choose|j: int| 0 <= j < items.len() && r[a] == items[j] && items[j].task_uuid@ == k;
        assert(r[a] == items[j]);
    }
    assert forall|j: Seq<char>|
        #[trigger] s.contains_key(j) && record_kind(s[j].0) == 3 && item_task_of(s[j].1) == k implies exists|a: int|
            0 <= a < r.len() && (#[trigger] r[a]).uuid@ == j by {
        let a0 = choose|a: int| 0 <= a < items.len() && (#[trigger] items[a]).uuid@ == j;
        assert(items[a0].task_uuid@ == k);
        let b = choose|b: int| 0 <= b < r.len() && #[trigger] r[b] == items[a0];
        assert(r[b].uuid@ == j);
    }
}

/// Second pass: gives each task its checklist items and indexes the tasks by id.
fn attach_checklists(tasks: Vec<(String, Task)>, items: &Vec<ChecklistItem>, Ghost(s): Ghost<StateMap>) -> (r: KeyMap<Task>)
    requires
        distinct_keys(tasks@),
        forall|x: int|
            0 <= x < tasks@.len() ==> s.contains_key((#[trigger] tasks@[x]).0@) && record_kind(
                s[tasks@[x].0@].0,
            ) == 0 && task_parsed(tasks@[x].1, tasks@[x].0@, s[tasks@[x].0@].1, task_entity_name(s[tasks@[x].0@].0)),
        forall|k: Seq<char>|
            #[trigger] s.contains_key(k) && record_kind(s[k].0) == 0 ==> exists|x: int|
                0 <= x < tasks@.len() && (#[trigger] tasks@[x]).0@ == k,
        distinct_item_ids(items@),
        forall|a: int|
            0 <= a < items@.len() ==> s.contains_key((#[trigger] items@[a]).uuid@) && record_kind(
                s[items@[a].uuid@].0,
            ) == 3 && checklist_parsed(items@[a], items@[a].uuid@, s[items@[a].uuid@].1),
        forall|k: Seq<char>|
            #[trigger] s.contains_key(k) && record_kind(s[k].0) == 3 ==> exists|a: int|
                0 <= a < items@.len() && (#[trigger] items@[a]).uuid@ == k,
    ensures
        r.wf(),
        tasks_built(r@, s),
{
    let ghost orig = tasks@;
    let ghost n = orig.len();
    let mut rest = tasks;
    let mut r: KeyMap<Task> = KeyMap::new();
    while rest.len() > 0
        invariant
            n == orig.len(),
            distinct_keys(orig),
            rest@.len() <= n,
            rest@ == orig.subrange(0, rest@.len() as int),
            forall|x: int|
                0 <= x < n ==> s.contains_key((#[trigger] orig[x]).0@) && record_kind(s[orig[x].0@].0) == 0
                    && task_parsed(orig[x].1, orig[x].0@, s[orig[x].0@].1, task_entity_name(s[orig[x].0@].0)),
            distinct_item_ids(items@),
            forall|a: int|
                0 <= a < items@.len() ==> s.contains_key((#[trigger] items@[a]).uuid@) && record_kind(
                    s[items@[a].uuid@].0,
                ) == 3 && checklist_parsed(items@[a], items@[a].uuid@, s[items@[a].uuid@].1),
            forall|k: Seq<char>|
                #[trigger] s.contains_key(k) && record_kind(s[k].0) == 3 ==> exists|a: int|
                    0 <= a < items@.len() && (#[trigger] items@[a]).uuid@ == k,
            r.wf(),
            forall|k: Seq<char>|
                #[trigger] r@.contains_key(k) ==> s.contains_key(k) && record_kind(s[k].0) == 0
                    && task_parsed(r@[k], k, s[k].1, task_entity_name(s[k].0))
                    && checklist_matches(r@[k].checklist_items@, s, k),
            forall|x: int| 0 <= x < rest@.len() ==> !r@.contains_key((#[trigger] orig[x]).0@),
            forall|x: int| rest@.len() <= x < n ==> r@.contains_key((#[trigger] orig[x]).0@),
        decreases rest@.len(),
    {
        let j = rest.len() - 1;
        let (uuid, mut t) = rest.pop().unwrap();
        proof {
            assert(orig[j as int] == (uuid, t));
            assert(rest@ =~= orig.subrange(0, j as int));
        }
        let cl = checklist_for(items, uuid.as_str());
        proof {
            lemma_items_match(items@, s, uuid@, cl@);
        }
        t.checklist_items = cl;
        let ghost old_r = r@;
        r.insert(uuid, t);
        proof {
            assert forall|x: int| 0 <= x < rest@.len() implies !r@.contains_key((#[trigger] orig[x]).0@) by {
                assert(orig[x].0@ != orig[j as int].0@);
            }
        }
    }
    proof {
        assert forall|k: Seq<char>| #[trigger] s.contains_key(k) && record_kind(s[k].0) == 0 implies r@.contains_key(k) by {
            let x = choose|x: int| 0 <= x < tasks@.len() && (#[trigger] tasks@[x]).0@ == k;
            assert(orig[x].0@ == k);
        }
    }
    r
}

/// The project a task belongs to: its own, or that of its heading.
pub open spec fn eff_project(tasks: Map<Seq<char>, Task>, t: Task) -> Option<Seq<char>> {
    match t.project {
        Some(p) => Some(p@),
        None => match t.action_group {
            Some(g) => if tasks.contains_key(g@) {
                opt_view(tasks[g@].project)
            } else {
                None
            },
            None => None,
        },
    }
}

/// The area a task belongs to: its own, its project's, or its heading's.
pub open spec fn eff_area(tasks: Map<Seq<char>, Task>, t: Task) -> Option<Seq<char>> {
    match t.area {
        Some(a) => Some(a@),
        None => {
            let via_project = match eff_project(tasks, t) {
                Some(p) => if tasks.contains_key(p) {
                    opt_view(tasks[p].area)
                } else {
                    None
                },
                None => None,
            };
            if via_project is Some {
                via_project
            } else {
                match t.action_group {
                    Some(g) => if tasks.contains_key(g@) {
                        opt_view(tasks[g@].area)
                    } else {
                        None
                    },
                    None => None,
                }
            }
        },
    }
}

fn clone_opt(o: &Option<String>) -> (r: Option<String>)
    ensures
        opt_view(r) == opt_view(*o),
{
    match o {
        Some(s) => Some(s.clone()),
        None => None,
    }
}

/// The project of `task` among `tasks`.
pub fn effective_project_in(tasks: &KeyMap<Task>, task: &Task) -> (r: Option<String>)
    requires
        tasks.wf(),
    ensures
        opt_view(r) == eff_project(tasks@, *task),
{
    if let Some(p) = &task.project {
        return Some(p.clone());
    }
    if let Some(g) = &task.action_group {
        if let Some(heading) = tasks.get(g.as_str()) {
            return clone_opt(&heading.project);
        }
    }
    None
}

/// The area of `task` among `tasks`.
pub fn effective_area_in(tasks: &KeyMap<Task>, task: &Task) -> (r: Option<String>)
    requires
        tasks.wf(),
    ensures
        opt_view(r) == eff_area(tasks@, *task),
{
    if let Some(a) = &task.area {
        return Some(a.clone());
    }
    if let Some(p) = effective_project_in(tasks, task) {
        if let Some(project) = tasks.get(p.as_str()) {
            if let Some(a) = &project.area {
                return Some(a.clone());
            }
        }
    }
    if let Some(g) = &task.action_group {
        if let Some(heading) = tasks.get(g.as_str()) {
            return clone_opt(&heading.area);
        }
    }
    None
}

/// The task under `k` is an untrashed to-do of project `p`.
pub open spec fn counts_for(tasks: Map<Seq<char>, Task>, p: Seq<char>, k: Seq<char>) -> bool {
    &&& tasks.contains_key(k)
    &&& !tasks[k].trashed
    &&& tasks[k].item_type == TaskType::Todo
    &&& eff_project(tasks, tasks[k]) == Some(p)
}

/// How many to-dos of `d` count for project `p`.
pub open spec fn count_total(tasks: Map<Seq<char>, Task>, d: Set<Seq<char>>, p: Seq<char>) -> nat {
    d.filter(|k: Seq<char>| counts_for(tasks, p, k)).len()
}

/// How many completed to-dos of `d` count for project `p`.
pub open spec fn count_done(tasks: Map<Seq<char>, Task>, d: Set<Seq<char>>, p: Seq<char>) -> nat {
    d.filter(|k: Seq<char>| counts_for(tasks, p, k) && tasks[k].status == TaskStatus::Completed).len()
}

/// The progress index holds, for each project with to-dos, their number and
/// the number of completed ones.
pub open spec fn progress_built(prog: Map<Seq<char>, ProjectProgress>, tasks: Map<Seq<char>, Task>) -> bool {
    &&& forall|p: Seq<char>| #[trigger] prog.contains_key(p) <==> count_total(tasks, tasks.dom(), p) > 0
    &&& forall|p: Seq<char>|
        #[trigger] prog.contains_key(p) ==> prog[p].total == count_total(tasks, tasks.dom(), p)
            && prog[p].done == count_done(tasks, tasks.dom(), p)
}

proof fn lemma_filter_insert(d: Set<Seq<char>>, k: Seq<char>, f: spec_fn(Seq<char>) -> bool)
    requires
        d.finite(),
        !d.contains(k),
    ensures
        d.insert(k).filter(f).len() == d.filter(f).len() + (if f(k) { 1int } else { 0 }),
        d.filter(f).len() <= d.len(),
{
    d.lemma_len_filter(f);
    if f(k) {
        assert(d.insert(k).filter(f) =~= d.filter(f).insert(k));
    } else {
        assert(d.insert(k).filter(f) =~= d.filter(f));
    }
}

/// Counts the to-dos of each project: how many there are and how many are done.
fn build_progress(tasks: &KeyMap<Task>) -> (prog: KeyMap<ProjectProgress>)
    requires
        tasks.wf(),
        tasks.entries_view().len() < 0x7fff_ffff,
    ensures
        prog.wf(),
        progress_built(prog@, tasks@),
{
    let ghost tm = tasks@;
    let ghost es = tasks.entries_view();
    proof {
        tasks.lemma_entries();
    }
    let mut prog: KeyMap<ProjectProgress> = KeyMap::new();
    let ghost mut done_set: Set<Seq<char>> = Set::empty();
    proof {
        assert forall|p: Seq<char>| #![trigger count_total(tm, done_set, p)] count_total(tm, done_set, p) == 0 by {
            assert(done_set.filter(|k: Seq<char>| counts_for(tm, p, k)) =~= Set::empty());
        }
    }
    let n = tasks.len();
    let mut i: usize = 0;
    while i < n
        invariant
            tasks.wf(),
            tm == tasks@,
            es == tasks.entries_view(),
            n == es.len(),
            n < 0x7fff_ffff,
            i <= n,
            distinct_keys(es),
            forall|x: int| 0 <= x < n ==> #[trigger] tm.contains_key(es[x].0@) && tm[es[x].0@] == es[x].1,
            forall|k: Seq<char>| #[trigger] tm.contains_key(k) ==> exists|x: int| 0 <= x < n && #[trigger] es[x].0@ == k,
            done_set.finite(),
            done_set.len() == i,
            forall|x: int| 0 <= x < i ==> #[trigger] done_set.contains(es[x].0@),
            forall|k: Seq<char>| #[trigger] done_set.contains(k) ==> exists|x: int| 0 <= x < i && #[trigger] es[x].0@ == k,
            prog.wf(),
            forall|p: Seq<char>| #[trigger] prog@.contains_key(p) <==> count_total(tm, done_set, p) > 0,
            forall|p: Seq<char>|
                #[trigger] prog@.contains_key(p) ==> prog@[p].total == count_total(tm, done_set, p)
                    && prog@[p].done == count_done(tm, done_set, p),
        decreases n - i,
    {
        let (k, t) = tasks.entry(i);
        let ghost kv = k@;
        proof {
            if done_set.contains(kv) {
                let x = choose|x: int| 0 <= x < i && #[trigger] es[x].0@ == kv;
                assert(es[x].0@ == es[i as int].0@);
            }
            assert(tm[kv] == *t);
        }
        let ghost old_prog = prog@;
        let ghost d2 = done_set.insert(kv);
        proof {
            assert forall|p: Seq<char>| true implies {
                &&& count_total(tm, d2, p) == count_total(tm, done_set, p) + (if counts_for(tm, p, kv) { 1int } else { 0 })
                &&& count_done(tm, d2, p) == count_done(tm, done_set, p) + (if counts_for(tm, p, kv) && tm[kv].status == TaskStatus::Completed { 1int } else { 0 })
                &&& count_total(tm, done_set, p) <= i
                &&& count_done(tm, done_set, p) <= count_total(tm, done_set, p)
            } by {
                let f1 = |k: Seq<char>| counts_for(tm, p, k);
                let f2 = |k: Seq<char>| counts_for(tm, p, k) && tm[k].status == TaskStatus::Completed;
                lemma_filter_insert(done_set, kv, f1);
                lemma_filter_insert(done_set, kv, f2);
                assert(done_set.filter(f2).subset_of(done_set.filter(f1)));
                vstd::set_lib::lemma_len_subset(done_set.filter(f2), done_set.filter(f1));
            }
        }
        if !t.trashed && t.is_todo() {
            if let Some(p) = effective_project_in(tasks, t) {
                let completed: i32 = if t.is_completed() { 1 } else { 0 };
                let ghost pv = p@;
                let next = match prog.get(p.as_str()) {
                    Some(pp) => {
                        proof {
                            assert(count_total(tm, d2, pv) == count_total(tm, done_set, pv) + 1);
                        }
                        ProjectProgress { total: pp.total + 1, done: pp.done + completed }
                    },
                    None => {
                        proof {
                            assert(count_total(tm, done_set, pv) == 0);
                        }
                        ProjectProgress { total: 1, done: completed }
                    },
                };
                prog.insert(p, next);
                proof {
                    assert forall|q: Seq<char>| #[trigger] prog@.contains_key(q) <==> count_total(tm, d2, q) > 0 by {
                        if q != pv {
                            assert(!counts_for(tm, q, kv));
                        }
                    }
                    assert forall|q: Seq<char>| #[trigger] prog@.contains_key(q) implies prog@[q].total == count_total(tm, d2, q)
                        && prog@[q].done == count_done(tm, d2, q) by {
                        if q != pv {
                            assert(!counts_for(tm, q, kv));
                            assert(old_prog.contains_key(q));
                        }
                    }
                }
            } else {
                proof {
                    assert forall|q: Seq<char>| !counts_for(tm, q, kv) by {}
                }
            }
        } else {
            proof {
                assert forall|q: Seq<char>| !counts_for(tm, q, kv) by {}
            }
        }
        proof {
            done_set = d2;
            assert forall|k2: Seq<char>| #[trigger] done_set.contains(k2) implies exists|x: int| 0 <= x < i + 1 && #[trigger] es[x].0@ == k2 by {
                if k2 != kv {
                    let x = choose|x: int| 0 <= x < i && #[trigger] es[x].0@ == k2;
                    assert(es[x].0@ == k2);
                } else {
                    assert(es[i as int].0@ == k2);
                }
            }
        }
        i += 1;
    }
    proof {
        assert(done_set =~= tm.dom()) by {
            assert forall|k: Seq<char>| #[trigger] tm.contains_key(k) implies done_set.contains(k) by {
                let x = choose|x: int| 0 <= x < n && #[trigger] es[x].0@ == k;
            }
        }
    }
    prog
}

/// The strings of `v` are pairwise distinct.
pub open spec fn distinct_strings(v: Seq<String>) -> bool {
    forall|a: int, b: int| 0 <= a < v.len() && 0 <= b < v.len() && a != b ==> #[trigger] v[a]@ != #[trigger] v[b]@
}

/// `v` lists the ids `d`, each once, in lexicographic order.
pub open spec fn ids_listed(v: Seq<String>, d: Set<Seq<char>>) -> bool {
    &&& sorted_texts(v)
    &&& distinct_strings(v)
    &&& id_set(v) == d
}

/// A task that `mark` and the other task commands can address.
pub open spec fn markable(t: Task) -> bool {
    &&& !t.trashed
    &&& t.item_type != TaskType::Heading
    &&& t.entity@ == "Task6"@
}

/// The ids of the markable tasks.
pub open spec fn markable_set(tasks: Map<Seq<char>, Task>) -> Set<Seq<char>> {
    tasks.dom().filter(|k: Seq<char>| markable(tasks[k]))
}

/// A tombstone, whose id gets no short id.
pub open spec fn tombstone_kind(e: Option<EntityType>) -> bool {
    ||| e == Some(EntityType::Tombstone2)
    ||| (e matches Some(EntityType::Unknown(n)) && n@ == "Tombstone"@)
}

/// The ids that get a short id: every object but tombstones.
pub open spec fn short_domain(s: StateMap) -> Set<Seq<char>> {
    s.dom().filter(|k: Seq<char>| !tombstone_kind(s[k].0) && !"TOMBSTONE-"@.is_prefix_of(k))
}

proof fn lemma_permuted_ids(r: Seq<String>, v: Seq<String>)
    requires
        permutes(r, v),
    ensures
        id_set(r) == id_set(v),
        distinct_strings(v) ==> distinct_strings(r),
{
    let perm = choose|perm: Seq<int>| is_perm_map(perm, r, v);
    assert forall|x: Seq<char>| #[trigger] id_set(r).contains(x) == id_set(v).contains(x) by {
        if id_set(r).contains(x) {
            let a = choose|a: int| 0 <= a < r.len() && #[trigger] r[a]@ == x;
            assert(v[perm[a]]@ == x);
        }
        if id_set(v).contains(x) {
            let b = choose|b: int| 0 <= b < v.len() && #[trigger] v[b]@ == x;
            assert(hits(perm, b));
            let a = choose|a: int| 0 <= a < perm.len() && #[trigger] perm[a] == b;
            assert(r[a]@ == x);
        }
    }
    assert(id_set(r) =~= id_set(v));
    if distinct_strings(v) {
        assert forall|a: int, b: int| 0 <= a < r.len() && 0 <= b < r.len() && a != b implies #[trigger] r[a]@ != #[trigger] r[b]@ by {
            assert(perm[a] != perm[b]);
        }
    }
}

fn sorted_ids(v: Vec<String>) -> (r: Vec<String>)
    requires
        distinct_strings(v@),
    ensures
        ids_listed(r@, id_set(v@)),
{
    let r = sort_texts(v);
    proof {
        lemma_permuted_ids(r@, v@);
    }
    r
}

/// The keys of a map, in entry order.
fn keys_of<V>(m: &KeyMap<V>) -> (r: Vec<String>)
    requires
        m.wf(),
    ensures
        distinct_strings(r@),
        id_set(r@) == m@.dom(),
{
    proof {
        m.lemma_entries();
    }
    let mut r: Vec<String> = Vec::new();
    let mut i: usize = 0;
    while i < m.len()
        invariant
            m.wf(),
            i <= m.entries_view().len(),
            r@.len() == i,
            forall|x: int| 0 <= x < i ==> #[trigger] r@[x]@ == m.entries_view()[x].0@,
        decreases m.entries_view().len() - i,
    {
        let (k, _) = m.entry(i);
        r.push(k.clone());
        i += 1;
    }
    proof {
        let es = m.entries_view();
        assert forall|x: Seq<char>| #[trigger] id_set(r@).contains(x) == m@.dom().contains(x) by {
            if id_set(r@).contains(x) {
                let a = choose|a: int| 0 <= a < r@.len() && #[trigger] r@[a]@ == x;
                assert(es[a].0@ == x);
            }
            if m@.contains_key(x) {
                let a = choose|a: int| 0 <= a < es.len() && #[trigger] es[a].0@ == x;
                assert(r@[a]@ == x);
            }
        }
        assert(id_set(r@) =~= m@.dom());
    }
    r
}

/// The keys of `m` whose entries satisfy `f`, in entry order.
fn filter_keys<V, F: Fn(&String, &V) -> bool>(
    m: &KeyMap<V>,
    f: F,
    Ghost(pred): Ghost<spec_fn(Seq<char>, V) -> bool>,
) -> (r: Vec<String>)
    requires
        m.wf(),
        forall|k: &String, v: &V| #[trigger] f.requires((k, v)),
        forall|k: &String, v: &V, b: bool| f.ensures((k, v), b) ==> b == pred(k@, *v),
    ensures
        distinct_strings(r@),
        id_set(r@) == m@.dom().filter(|k: Seq<char>| pred(k, m@[k])),
{
    proof {
        m.lemma_entries();
    }
    let ghost es = m.entries_view();
    let ghost mut src: Seq<int> = Seq::empty();
    let mut r: Vec<String> = Vec::new();
    let mut i: usize = 0;
    while i < m.len()
        invariant
            m.wf(),
            es == m.entries_view(),
            distinct_keys(es),
            i <= es.len(),
            forall|k: &String, v: &V| #[trigger] f.requires((k, v)),
            forall|k: &String, v: &V, b: bool| f.ensures((k, v), b) ==> b == pred(k@, *v),
            src.len() == r@.len(),
            forall|x: int| 0 <= x < src.len() ==> 0 <= #[trigger] src[x] < i && es[src[x]].0@ == r@[x]@ && pred(es[src[x]].0@, es[src[x]].1),
            forall|x: int, z: int| 0 <= x < z < src.len() ==> #[trigger] src[x] < #[trigger] src[z],
            forall|y: int| 0 <= y < i && pred((#[trigger] es[y]).0@, es[y].1) ==> exists|x: int| 0 <= x < src.len() && src[x] == y,
        decreases es.len() - i,
    {
        let (k, v) = m.entry(i);
        let ghost old_src = src;
        if f(k, v) {
            r.push(k.clone());
            proof {
                src = src.push(i as int);
            }
        }
        proof {
            assert forall|y: int| 0 <= y < i + 1 && pred((#[trigger] es[y]).0@, es[y].1) implies exists|x: int| 0 <= x < src.len() && src[x] == y by {
                if y == i {
                    assert(src[src.len() - 1] == y);
                } else {
                    let x = choose|x: int| 0 <= x < old_src.len() && old_src[x] == y;
                    assert(src[x] == old_src[x]);
                }
            }
        }
        i += 1;
    }
    proof {
        let fm = m@.dom().filter(|k: Seq<char>| pred(k, m@[k]));
        assert forall|a: int, b: int| 0 <= a < r@.len() && 0 <= b < r@.len() && a != b implies #[trigger] r@[a]@ != #[trigger] r@[b]@ by {
            if a < b {
                assert(src[a] < src[b]);
            } else {
                assert(src[b] < src[a]);
            }
        }
        assert forall|x: Seq<char>| #[trigger] id_set(r@).contains(x) == fm.contains(x) by {
            if id_set(r@).contains(x) {
                let a = choose|a: int| 0 <= a < r@.len() && #[trigger] r@[a]@ == x;
                assert(m@.contains_key(es[src[a]].0@));
            }
            if fm.contains(x) {
                let y = choose|y: int| 0 <= y < es.len() && #[trigger] es[y].0@ == x;
                assert(m@[x] == es[y].1);
                let a = choose|a: int| 0 <= a < src.len() && src[a] == y;
                assert(r@[a]@ == x);
            }
        }
        assert(id_set(r@) =~= fm);
    }
    r
}

fn markable_entry(k: &String, t: &Task) -> (b: bool)
    ensures
        b == markable(*t),
{
    !t.trashed && !t.is_heading() && same_text(t.entity.as_str(), "Task6")
}

/// The ids of the markable tasks, in entry order.
fn markable_keys(tasks: &KeyMap<Task>) -> (r: Vec<String>)
    requires
        tasks.wf(),
    ensures
        distinct_strings(r@),
        id_set(r@) == markable_set(tasks@),
{
    let r = filter_keys(tasks, markable_entry, Ghost(|k: Seq<char>, t: Task| markable(t)));
    proof {
        assert(tasks@.dom().filter(|k: Seq<char>| (|k: Seq<char>, t: Task| markable(t))(k, tasks@[k])) =~= markable_set(tasks@));
    }
    r
}

fn is_tombstone(e: &Option<EntityType>) -> (r: bool)
    ensures
        r == tombstone_kind(*e),
{
    match e {
        Some(EntityType::Tombstone2) => true,
        Some(EntityType::Unknown(n)) => same_text(n.as_str(), "Tombstone"),
        _ => false,
    }
}

fn gets_short_id(k: &String, o: &crate::replay::StateObject) -> (b: bool)
    ensures
        b == (!tombstone_kind(o.entity_type) && !"TOMBSTONE-"@.is_prefix_of(k@)),
{
    !is_tombstone(&o.entity_type) && !starts_with(k.as_str(), "TOMBSTONE-")
}

/// The ids of the state that get a short id (`short_id_domain`).
fn short_id_domain(raw: &RawState) -> (r: Vec<String>)
    requires
        raw.wf(),
    ensures
        distinct_strings(r@),
        id_set(r@) == short_domain(state_view(raw@)),
{
    let r = filter_keys(
        raw,
        gets_short_id,
        Ghost(|k: Seq<char>, o: crate::replay::StateObject| !tombstone_kind(o.entity_type) && !"TOMBSTONE-"@.is_prefix_of(k)),
    );
    proof {
        let sm = state_view(raw@);
        assert(raw@.dom().filter(|k: Seq<char>| (|k: Seq<char>, o: crate::replay::StateObject| !tombstone_kind(o.entity_type) && !"TOMBSTONE-"@.is_prefix_of(k))(k, raw@[k])) =~= short_domain(sm));
    }
    r
}

/// The store: the records of the replayed state, with the indexes the
/// commands read.
pub struct ThingsStore {
    pub tasks_by_uuid: KeyMap<Task>,
    pub areas_by_uuid: KeyMap<Area>,
    pub tags_by_uuid: KeyMap<Tag>,
    pub tags_by_title: KeyMap<String>,
    pub project_progress_by_uuid: KeyMap<ProjectProgress>,
    pub short_ids: KeyMap<String>,
    pub markable_ids_sorted: Vec<String>,
    pub area_ids_sorted: Vec<String>,
    pub task_ids_sorted: Vec<String>,
}

impl ThingsStore {
    /// The indexes agree with the records they index.
    pub open spec fn wf(&self) -> bool {
        &&& self.tasks_by_uuid.wf()
        &&& self.areas_by_uuid.wf()
        &&& self.tags_by_uuid.wf()
        &&& self.tags_by_title.wf()
        &&& self.project_progress_by_uuid.wf()
        &&& self.short_ids.wf()
        &&& forall|k: Seq<char>| #[trigger] self.tasks_by_uuid@.contains_key(k) ==> self.tasks_by_uuid@[k].uuid@ == k
        &&& forall|k: Seq<char>| #[trigger] self.areas_by_uuid@.contains_key(k) ==> self.areas_by_uuid@[k].uuid@ == k
        &&& forall|k: Seq<char>| #[trigger] self.tags_by_uuid@.contains_key(k) ==> self.tags_by_uuid@[k].uuid@ == k
        &&& ids_listed(self.task_ids_sorted@, self.tasks_by_uuid@.dom())
        &&& ids_listed(self.area_ids_sorted@, self.areas_by_uuid@.dom())
        &&& ids_listed(self.markable_ids_sorted@, markable_set(self.tasks_by_uuid@))
    }

    /// The store is the one read from the state `s`.
    pub open spec fn built_from(&self, s: StateMap) -> bool {
        &&& tasks_built(self.tasks_by_uuid@, s)
        &&& areas_built(self.areas_by_uuid@, s)
        &&& tags_built(self.tags_by_uuid@, s)
        &&& titles_built(self.tags_by_title@, self.tags_by_uuid@)
        &&& progress_built(self.project_progress_by_uuid@, self.tasks_by_uuid@)
        &&& short_ids_of(self.short_ids@, short_domain(s))
    }

    /// Reads the store from the replayed state.
    pub fn from_raw_state(raw_state: RawState) -> (store: ThingsStore)
        requires
            raw_state.wf(),
            forall|k: Seq<char>| #[trigger] raw_state@.contains_key(k) ==> raw_state@[k].properties.wf(),
            raw_state.entries_view().len() < 0x7fff_ffff,
        ensures
            store.wf(),
            store.built_from(state_view(raw_state@)),
    {
        let ghost s = state_view(raw_state@);
        proof {
            raw_state.lemma_entries();
            assert(s.dom() =~= raw_state@.dom());
        }
        let domain = short_id_domain(&raw_state);
        let rec = read_records(raw_state);
        let Records { tasks, areas, tags, titles, items } = rec;
        let tasks_by_uuid = attach_checklists(tasks, &items, Ghost(s));
        proof {
            tasks_by_uuid.lemma_entries();
            assert(tasks_by_uuid@.dom().subset_of(s.dom()));
            vstd::set_lib::lemma_len_subset(tasks_by_uuid@.dom(), s.dom());
        }
        let project_progress_by_uuid = build_progress(&tasks_by_uuid);
        let short_ids = shortest_unique_prefixes(&domain);
        let markable_ids_sorted = sorted_ids(markable_keys(&tasks_by_uuid));
        let area_ids_sorted = sorted_ids(keys_of(&areas));
        let task_ids_sorted = sorted_ids(keys_of(&tasks_by_uuid));
        ThingsStore {
            tasks_by_uuid,
            areas_by_uuid: areas,
            tags_by_uuid: tags,
            tags_by_title: titles,
            project_progress_by_uuid,
            short_ids,
            markable_ids_sorted,
            area_ids_sorted,
            task_ids_sorted,
        }
    }
}

/// The store's indexes, as `from_raw_state` builds them from the state `s`:
/// the task ids and the area ids each listed once, in lexicographic order,
/// exactly the ids of the store's tasks and areas; the markable ids likewise
/// exactly those of the untrashed Task6 tasks that are not headings; and a
/// short id for exactly the objects of `s` that are not tombstones.
pub proof fn lemma_store_indexes(store: ThingsStore, s: StateMap)
    requires
        store.wf(),
        store.built_from(s),
    ensures
        sorted_texts(store.task_ids_sorted@),
        distinct_strings(store.task_ids_sorted@),
        forall|k: Seq<char>| #[trigger] id_set(store.task_ids_sorted@).contains(k) <==> store.tasks_by_uuid@.contains_key(k),
        sorted_texts(store.area_ids_sorted@),
        distinct_strings(store.area_ids_sorted@),
        forall|k: Seq<char>| #[trigger] id_set(store.area_ids_sorted@).contains(k) <==> store.areas_by_uuid@.contains_key(k),
        sorted_texts(store.markable_ids_sorted@),
        distinct_strings(store.markable_ids_sorted@),
        forall|k: Seq<char>| #[trigger] id_set(store.markable_ids_sorted@).contains(k) <==> (store.tasks_by_uuid@.contains_key(k)
            && !store.tasks_by_uuid@[k].trashed && store.tasks_by_uuid@[k].item_type != TaskType::Heading
            && store.tasks_by_uuid@[k].entity@ == "Task6"@),
        forall|k: Seq<char>| #[trigger] store.short_ids@.contains_key(k) <==> (s.contains_key(k) && !tombstone_kind(s[k].0)
            && !"TOMBSTONE-"@.is_prefix_of(k)),
{
    assert forall|k: Seq<char>| #[trigger] id_set(store.markable_ids_sorted@).contains(k) <==> (store.tasks_by_uuid@.contains_key(k)
        && !store.tasks_by_uuid@[k].trashed && store.tasks_by_uuid@[k].item_type != TaskType::Heading
        && store.tasks_by_uuid@[k].entity@ == "Task6"@) by {
        assert(markable_set(store.tasks_by_uuid@).contains(k) == (store.tasks_by_uuid@.contains_key(k) && markable(store.tasks_by_uuid@[k])));
    }
    assert forall|k: Seq<char>| #[trigger] store.short_ids@.contains_key(k) <==> (s.contains_key(k) && !tombstone_kind(s[k].0)
        && !"TOMBSTONE-"@.is_prefix_of(k)) by {
        assert(short_domain(s).contains(k) == (s.contains_key(k) && !tombstone_kind(s[k].0) && !"TOMBSTONE-"@.is_prefix_of(k)));
    }
}

} // verus!
