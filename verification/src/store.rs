//! The task store derived from the replayed state: tasks, areas, tags and
//! checklist items, with the lists and lookups the commands read.

use vstd::prelude::*;
use crate::json::JsonValue;
use crate::keymap::KeyMap;
use crate::props::{
    Props, prop, prop_i32, prop_i64, prop_bool, prop_str, prop_str_list, prop_date, first_of,
    opt_view, list_view, notes_of, read_i32, read_i64, read_bool, read_str, read_str_list,
    read_date, read_notes, first_string,
};
use crate::replay::{RawState, StateObject};
use crate::text::{trimmed, owned, starts_with};
use crate::sorting::{SortKey, sort_by_key, is_perm_map, hits, key_le};
use crate::wire::{
    EntityType, RecurrenceRule, TaskStart, TaskStatus, TaskType, task_status_of, task_start_of,
    task_type_of, rule_fields_ok, rule_matches,
};

verus! {

/// A tag.
pub struct Tag {
    pub uuid: String,
    pub title: String,
    pub shortcut: Option<String>,
    pub index: i32,
    pub parent_uuid: Option<String>,
}

/// An area.
pub struct Area {
    pub uuid: String,
    pub title: String,
    pub tags: Vec<String>,
    pub index: i32,
}

/// A checklist item of a task.
pub struct ChecklistItem {
    pub uuid: String,
    pub title: String,
    pub task_uuid: String,
    pub status: TaskStatus,
    pub index: i32,
}

impl ChecklistItem {
    /// The item is open.
    pub fn is_incomplete(&self) -> (r: bool)
        ensures
            r == (self.status == TaskStatus::Incomplete),
    {
        self.status == TaskStatus::Incomplete
    }

    /// The item is checked.
    pub fn is_completed(&self) -> (r: bool)
        ensures
            r == (self.status == TaskStatus::Completed),
    {
        self.status == TaskStatus::Completed
    }

    /// The item is canceled.
    pub fn is_canceled(&self) -> (r: bool)
        ensures
            r == (self.status == TaskStatus::Canceled),
    {
        self.status == TaskStatus::Canceled
    }
}

/// How many to-dos a project has, and how many of them are done.
#[derive(Debug, Clone, Copy, PartialEq, Eq, Structural)]
pub struct ProjectProgress {
    pub total: i32,
    pub done: i32,
}

/// A task, project or heading.  Dates are Unix timestamps in seconds (UTC).
pub struct Task {
    pub uuid: String,
    pub title: String,
    pub status: TaskStatus,
    pub start: TaskStart,
    pub item_type: TaskType,
    pub entity: String,
    pub notes: Option<String>,
    pub project: Option<String>,
    pub area: Option<String>,
    pub action_group: Option<String>,
    pub tags: Vec<String>,
    pub trashed: bool,
    pub deadline: Option<i64>,
    pub start_date: Option<i64>,
    pub stop_date: Option<i64>,
    pub creation_date: Option<i64>,
    pub modification_date: Option<i64>,
    pub index: i32,
    pub today_index: i32,
    pub today_index_reference: Option<i64>,
    pub leaves_tombstone: bool,
    pub instance_creation_paused: bool,
    pub evening: bool,
    pub recurrence_rule: Option<RecurrenceRule>,
    pub recurrence_templates: Vec<String>,
    pub checklist_items: Vec<ChecklistItem>,
}

/// Whether a task is listed for the day `today` (a UTC midnight timestamp):
/// it starts in Anytime with a start date on or before that day.
pub open spec fn task_is_today(t: Task, today: i64) -> bool {
    match t.start_date {
        Some(d) => t.start == TaskStart::Anytime && d <= today,
        None => false,
    }
}

/// Whether a task is in Someday with no start date.
pub open spec fn task_in_someday(t: Task) -> bool {
    t.start == TaskStart::Someday && t.start_date is None
}

impl Task {
    /// Open.
    pub fn is_incomplete(&self) -> (r: bool)
        ensures
            r == (self.status == TaskStatus::Incomplete),
    {
        self.status == TaskStatus::Incomplete
    }

    /// Completed.
    pub fn is_completed(&self) -> (r: bool)
        ensures
            r == (self.status == TaskStatus::Completed),
    {
        self.status == TaskStatus::Completed
    }

    /// Canceled.
    pub fn is_canceled(&self) -> (r: bool)
        ensures
            r == (self.status == TaskStatus::Canceled),
    {
        self.status == TaskStatus::Canceled
    }

    /// A to-do.
    pub fn is_todo(&self) -> (r: bool)
        ensures
            r == (self.item_type == TaskType::Todo),
    {
        self.item_type == TaskType::Todo
    }

    /// A project.
    pub fn is_project(&self) -> (r: bool)
        ensures
            r == (self.item_type == TaskType::Project),
    {
        self.item_type == TaskType::Project
    }

    /// A heading.
    pub fn is_heading(&self) -> (r: bool)
        ensures
            r == (self.item_type == TaskType::Heading),
    {
        self.item_type == TaskType::Heading
    }

    /// In Someday, with no start date.
    pub fn in_someday(&self) -> (r: bool)
        ensures
            r == task_in_someday(*self),
    {
        self.start == TaskStart::Someday && self.start_date.is_none()
    }

    /// Listed for the day `today` (a UTC midnight timestamp).
    pub fn is_today(&self, today: i64) -> (r: bool)
        ensures
            r == task_is_today(*self, today),
    {
        match self.start_date {
            Some(d) => self.start == TaskStart::Anytime && d <= today,
            None => false,
        }
    }

    /// A recurrence template: a rule and no template references.
    pub fn is_recurrence_template(&self) -> (r: bool)
        ensures
            r == (self.recurrence_rule is Some && self.recurrence_templates@.len() == 0),
    {
        self.recurrence_rule.is_some() && self.recurrence_templates.len() == 0
    }

    /// A recurrence instance: template references and no rule.
    pub fn is_recurrence_instance(&self) -> (r: bool)
        ensures
            r == (self.recurrence_rule is None && self.recurrence_templates@.len() > 0),
    {
        self.recurrence_rule.is_none() && self.recurrence_templates.len() > 0
    }
}

/// Whether `t` is the task parsed from the properties `p` of object `k` with
/// entity name `entity` (checklist items aside).
pub open spec fn task_parsed(t: Task, k: Seq<char>, p: Props, entity: Seq<char>) -> bool {
    &&& t.uuid@ == k
    &&& t.title@ == (match prop_str(p, "tt"@) {
        Some(s) => s,
        None => seq![],
    })
    &&& t.status == task_status_of(prop_i32(p, "ss"@, 0))
    &&& t.start == task_start_of(prop_i32(p, "st"@, 0))
    &&& t.item_type == task_type_of(prop_i32(p, "tp"@, 0))
    &&& t.entity@ == entity
    &&& opt_view(t.notes) == notes_of(prop(p, "nt"@))
    &&& opt_view(t.project) == first_of(prop_str_list(p, "pr"@))
    &&& opt_view(t.area) == first_of(prop_str_list(p, "ar"@))
    &&& opt_view(t.action_group) == first_of(prop_str_list(p, "agr"@))
    &&& list_view(t.tags@) == prop_str_list(p, "tg"@)
    &&& t.trashed == prop_bool(p, "tr"@, false)
    &&& t.deadline == prop_date(p, "dd"@)
    &&& t.start_date == prop_date(p, "sr"@)
    &&& t.stop_date == prop_date(p, "sp"@)
    &&& t.creation_date == prop_date(p, "cd"@)
    &&& t.modification_date == prop_date(p, "md"@)
    &&& t.index == prop_i32(p, "ix"@, 0)
    &&& t.today_index == prop_i32(p, "ti"@, 0)
    &&& t.today_index_reference == prop_i64(p, "tir"@)
    &&& t.leaves_tombstone == prop_bool(p, "lt"@, false)
    &&& t.instance_creation_paused == prop_bool(p, "icp"@, false)
    &&& t.evening == (prop_i32(p, "sb"@, 0) != 0)
    &&& match prop(p, "rr"@) {
        Some(JsonValue::Object(entries)) => match t.recurrence_rule {
            Some(rule) => rule_fields_ok(entries@) && rule_matches(rule, entries@),
            None => !rule_fields_ok(entries@),
        },
        _ => t.recurrence_rule is None,
    }
    &&& list_view(t.recurrence_templates@) == prop_str_list(p, "rt"@)
}

/// Whether `a` is the area parsed from the properties `p` of object `k`.
pub open spec fn area_parsed(a: Area, k: Seq<char>, p: Props) -> bool {
    &&& a.uuid@ == k
    &&& a.title@ == (match prop_str(p, "tt"@) {
        Some(s) => s,
        None => seq![],
    })
    &&& list_view(a.tags@) == prop_str_list(p, "tg"@)
    &&& a.index == prop_i32(p, "ix"@, 0)
}

/// Whether `t` is the tag parsed from the properties `p` of object `k`.
pub open spec fn tag_parsed(t: Tag, k: Seq<char>, p: Props) -> bool {
    &&& t.uuid@ == k
    &&& t.title@ == (match prop_str(p, "tt"@) {
        Some(s) => s,
        None => seq![],
    })
    &&& opt_view(t.shortcut) == prop_str(p, "sh"@)
    &&& t.index == prop_i32(p, "ix"@, 0)
    &&& opt_view(t.parent_uuid) == first_of(prop_str_list(p, "pn"@))
}

/// Whether `c` is the checklist item parsed from the properties `p` of object `k`.
pub open spec fn checklist_parsed(c: ChecklistItem, k: Seq<char>, p: Props) -> bool {
    &&& c.uuid@ == k
    &&& c.title@ == (match prop_str(p, "tt"@) {
        Some(s) => s,
        None => seq![],
    })
    &&& c.task_uuid@ == (match first_of(prop_str_list(p, "ts"@)) {
        Some(s) => s,
        None => seq![],
    })
    &&& c.status == task_status_of(prop_i32(p, "ss"@, 0))
    &&& c.index == prop_i32(p, "ix"@, 0)
}

fn string_or_empty(s: Option<String>) -> (r: String)
    ensures
        r@ == (match opt_view(s) {
            Some(v) => v,
            None => seq![],
        }),
{
    match s {
        Some(v) => v,
        None => String::new(),
    }
}

/// Parses a task from the properties of object `uuid`, taking the recurrence rule out of them.
pub fn parse_task(uuid: &str, p: &mut KeyMap<JsonValue>, entity: &str) -> (t: Task)
    requires
        old(p).wf(),
    ensures
        task_parsed(t, uuid@, old(p)@, entity@),
        t.checklist_items@.len() == 0,
        final(p).wf(),
{
    let ghost orig = p@;
    let project_list = read_str_list(p, "pr");
    let area_list = read_str_list(p, "ar");
    let action_group_list = read_str_list(p, "agr");
    let title = string_or_empty(read_str(p, "tt"));
    let status = TaskStatus::from(read_i32(p, "ss", 0));
    let start = TaskStart::from(read_i32(p, "st", 0));
    let item_type = TaskType::from(read_i32(p, "tp", 0));
    let notes = read_notes(p.get("nt"));
    let tags = read_str_list(p, "tg");
    let trashed = read_bool(p, "tr", false);
    let deadline = read_date(p, "dd");
    let start_date = read_date(p, "sr");
    let stop_date = read_date(p, "sp");
    let creation_date = read_date(p, "cd");
    let modification_date = read_date(p, "md");
    let index = read_i32(p, "ix", 0);
    let today_index = read_i32(p, "ti", 0);
    let today_index_reference = read_i64(p, "tir");
    let leaves_tombstone = read_bool(p, "lt", false);
    let instance_creation_paused = read_bool(p, "icp", false);
    let evening = read_i32(p, "sb", 0) != 0;
    let recurrence_templates = read_str_list(p, "rt");
    let recurrence_rule = match p.remove("rr") {
        Some(v) => RecurrenceRule::from_json(v),
        None => None,
    };
    Task {
        uuid: owned(uuid),
        title,
        status,
        start,
        item_type,
        entity: owned(entity),
        notes,
        project: first_string(&project_list),
        area: first_string(&area_list),
        action_group: first_string(&action_group_list),
        tags,
        trashed,
        deadline,
        start_date,
        stop_date,
        creation_date,
        modification_date,
        index,
        today_index,
        today_index_reference,
        leaves_tombstone,
        instance_creation_paused,
        evening,
        recurrence_rule,
        recurrence_templates,
        checklist_items: Vec::new(),
    }
}

/// Parses an area.
pub fn parse_area(uuid: &str, p: &KeyMap<JsonValue>) -> (a: Area)
    requires
        p.wf(),
    ensures
        area_parsed(a, uuid@, p@),
{
    Area {
        uuid: owned(uuid),
        title: string_or_empty(read_str(p, "tt")),
        tags: read_str_list(p, "tg"),
        index: read_i32(p, "ix", 0),
    }
}

/// Parses a tag.
pub fn parse_tag(uuid: &str, p: &KeyMap<JsonValue>) -> (t: Tag)
    requires
        p.wf(),
    ensures
        tag_parsed(t, uuid@, p@),
{
    let parents = read_str_list(p, "pn");
    Tag {
        uuid: owned(uuid),
        title: string_or_empty(read_str(p, "tt")),
        shortcut: read_str(p, "sh"),
        index: read_i32(p, "ix", 0),
        parent_uuid: first_string(&parents),
    }
}

/// Parses a checklist item.
pub fn parse_checklist_item(uuid: &str, p: &KeyMap<JsonValue>) -> (c: ChecklistItem)
    requires
        p.wf(),
    ensures
        checklist_parsed(c, uuid@, p@),
{
    let ts = read_str_list(p, "ts");
    ChecklistItem {
        uuid: owned(uuid),
        title: string_or_empty(read_str(p, "tt")),
        task_uuid: string_or_empty(first_string(&ts)),
        status: TaskStatus::from(read_i32(p, "ss", 0)),
        index: read_i32(p, "ix", 0),
    }
}

impl ChecklistItem {
    /// A copy of this item.
    pub fn duplicate(&self) -> (r: ChecklistItem)
        ensures
            r == *self,
    {
        ChecklistItem {
            uuid: self.uuid.clone(),
            title: self.title.clone(),
            task_uuid: self.task_uuid.clone(),
            status: self.status,
            index: self.index,
        }
    }
}

/// Whether an entity kind is read as a task (`Task6`, or an unknown kind named `Task...`).
pub open spec fn is_task_entity(e: Option<EntityType>) -> bool {
    ||| e == Some(EntityType::Task6)
    ||| (e matches Some(EntityType::Unknown(s)) && "Task"@.is_prefix_of(s@))
}

/// Whether an entity kind is read as an area (`Area3`, or an unknown kind named `Area...`).
pub open spec fn is_area_entity(e: Option<EntityType>) -> bool {
    ||| e == Some(EntityType::Area3)
    ||| (e matches Some(EntityType::Unknown(s)) && "Area"@.is_prefix_of(s@))
}

/// Whether an entity kind is read as a tag (`Tag4`, or an unknown kind named `Tag...`).
pub open spec fn is_tag_entity(e: Option<EntityType>) -> bool {
    ||| e == Some(EntityType::Tag4)
    ||| (e matches Some(EntityType::Unknown(s)) && "Tag"@.is_prefix_of(s@))
}

/// What kind of store record a state object becomes.
pub open spec fn record_kind(e: Option<EntityType>) -> int {
    if is_task_entity(e) {
        0
    } else if is_area_entity(e) {
        1
    } else if is_tag_entity(e) {
        2
    } else if e == Some(EntityType::ChecklistItem3) {
        3
    } else {
        4
    }
}

/// The entity name a task keeps.
pub open spec fn task_entity_name(e: Option<EntityType>) -> Seq<char> {
    match e {
        Some(EntityType::Unknown(s)) => s@,
        _ => "Task6"@,
    }
}

pub(crate) fn classify(e: &Option<EntityType>) -> (r: u8)
    ensures
        r as int == record_kind(*e),
{
    match e {
        Some(EntityType::Task6) => 0,
        Some(EntityType::Area3) => 1,
        Some(EntityType::Tag4) => 2,
        Some(EntityType::ChecklistItem3) => 3,
        Some(EntityType::Unknown(s)) => {
            if starts_with(s.as_str(), "Task") {
                0
            } else if starts_with(s.as_str(), "Area") {
                1
            } else if starts_with(s.as_str(), "Tag") {
                2
            } else {
                4
            }
        },
        _ => 4,
    }
}

pub(crate) fn entity_name_for_task(e: &Option<EntityType>) -> (r: String)
    ensures
        r@ == task_entity_name(*e),
{
    match e {
        Some(EntityType::Unknown(s)) => s.clone(),
        _ => owned("Task6"),
    }
}

/// `x` is one of the items of `cl` that belong to the task with id `u`.
pub open spec fn item_of_task(cl: Seq<ChecklistItem>, u: Seq<char>, x: ChecklistItem) -> bool {
    exists|j: int| 0 <= j < cl.len() && x == cl[j] && cl[j].task_uuid@ == u
}

/// Whether the items of `s` have pairwise distinct ids.
pub open spec fn distinct_item_ids(s: Seq<ChecklistItem>) -> bool {
    forall|a: int, b: int|
        0 <= a < s.len() && 0 <= b < s.len() && a != b ==> #[trigger] s[a].uuid@ != #[trigger] s[b].uuid@
}

/// The items of `cl` that belong to task `u`, keyed by (index, position).
fn matching_items(cl: &Vec<ChecklistItem>, u: &str) -> (f: Vec<(SortKey, ChecklistItem)>)
    ensures
        forall|m: int| 0 <= m < f@.len() ==> 0 <= (#[trigger] f@[m]).0.1 < cl@.len() && f@[m] == ((cl@[f@[m].0.1 as int].index as i128, f@[m].0.1, 0i128), cl@[f@[m].0.1 as int]) && cl@[f@[m].0.1 as int].task_uuid@ == u@,
        forall|m1: int, m2: int| 0 <= m1 < m2 < f@.len() ==> (#[trigger] f@[m1]).0.1 < (#[trigger] f@[m2]).0.1,
        forall|jj: int| 0 <= jj < cl@.len() && (#[trigger] cl@[jj]).task_uuid@ == u@ ==> exists|m: int| 0 <= m < f@.len() && f@[m].0.1 == jj,
{
    let mut f: Vec<(SortKey, ChecklistItem)> = Vec::new();
    let mut j: usize = 0;
    while j < cl.len()
        invariant
            j <= cl@.len(),
            forall|m: int| 0 <= m < f@.len() ==> 0 <= (#[trigger] f@[m]).0.1 < j && f@[m] == ((cl@[f@[m].0.1 as int].index as i128, f@[m].0.1, 0i128), cl@[f@[m].0.1 as int]) && cl@[f@[m].0.1 as int].task_uuid@ == u@,
            forall|m1: int, m2: int| 0 <= m1 < m2 < f@.len() ==> (#[trigger] f@[m1]).0.1 < (#[trigger] f@[m2]).0.1,
            forall|jj: int| 0 <= jj < j && (#[trigger] cl@[jj]).task_uuid@ == u@ ==> exists|m: int| 0 <= m < f@.len() && f@[m].0.1 == jj,
        decreases cl@.len() - j,
    {
        if crate::text::same_text(cl[j].task_uuid.as_str(), u) {
            let c = cl[j].duplicate();
            let ghost old_f = f@;
            f.push(((cl[j].index as i128, j as i128, 0i128), c));
            proof {
                assert forall|jj: int| 0 <= jj < j + 1 && (#[trigger] cl@[jj]).task_uuid@ == u@ implies exists|m: int| 0 <= m < f@.len() && f@[m].0.1 == jj by {
                    if jj == j {
                        assert(f@[f@.len() - 1].0.1 == jj);
                    } else {
                        let m = choose|m: int| 0 <= m < old_f.len() && old_f[m].0.1 == jj;
                        assert(f@[m] == old_f[m]);
                    }
                }
            }
        }
        j += 1;
    }
    f
}

/// The checklist items of `cl` that belong to task `u`, ordered by their index.
pub fn checklist_for(cl: &Vec<ChecklistItem>, u: &str) -> (r: Vec<ChecklistItem>)
    requires
        distinct_item_ids(cl@),
    ensures
        forall|a: int, b: int| 0 <= a < b < r@.len() ==> (#[trigger] r@[a]).index <= (#[trigger] r@[b]).index,
        forall|a: int| 0 <= a < r@.len() ==> item_of_task(cl@, u@, #[trigger] r@[a]),
        forall|j: int| 0 <= j < cl@.len() && (#[trigger] cl@[j]).task_uuid@ == u@ ==> exists|a: int| 0 <= a < r@.len() && #[trigger] r@[a] == cl@[j],
        distinct_item_ids(r@),
{
    let f = matching_items(cl, u);
    let ghost fv = f@;
    let sorted = sort_by_key(f);
    let ghost perm = choose|perm: Seq<int>| is_perm_map(perm, sorted@, fv);
    let mut out: Vec<ChecklistItem> = Vec::new();
    let mut rest = sorted;
    let ghost sv = rest@;
    let ghost n = sv.len();
    proof {
        assert(rest@ =~= sv.subrange(0, n as int));
    }
    while rest.len() > 0
        invariant
            n == sv.len(),
            rest@.len() <= n,
            rest@ == sv.subrange(n - rest@.len(), n as int),
            out@.len() == n - rest@.len(),
            forall|a: int| 0 <= a < out@.len() ==> #[trigger] out@[a] == sv[a].1,
        decreases rest@.len(),
    {
        let (_, c) = rest.remove(0);
        out.push(c);
        proof {
            assert(rest@ =~= sv.subrange(n - rest@.len(), n as int));
        }
    }
    proof {
        lemma_checklist_for_result(cl@, u@, fv, sv, perm, out@);
    }
    out
}

#[verifier::rlimit(60)]
proof fn lemma_checklist_for_result(
    cl: Seq<ChecklistItem>,
    u: Seq<char>,
    fv: Seq<(SortKey, ChecklistItem)>,
    sv: Seq<(SortKey, ChecklistItem)>,
    perm: Seq<int>,
    out: Seq<ChecklistItem>,
)
    requires
        distinct_item_ids(cl),
        forall|m: int| 0 <= m < fv.len() ==> 0 <= (#[trigger] fv[m]).0.1 < cl.len() && fv[m] == ((cl[fv[m].0.1 as int].index as i128, fv[m].0.1, 0i128), cl[fv[m].0.1 as int]) && cl[fv[m].0.1 as int].task_uuid@ == u,
        forall|m1: int, m2: int| 0 <= m1 < m2 < fv.len() ==> (#[trigger] fv[m1]).0.1 < (#[trigger] fv[m2]).0.1,
        forall|jj: int| 0 <= jj < cl.len() && (#[trigger] cl[jj]).task_uuid@ == u ==> exists|m: int| 0 <= m < fv.len() && fv[m].0.1 == jj,
        crate::sorting::sorted_by_key(sv),
        is_perm_map(perm, sv, fv),
        out.len() == sv.len(),
        forall|a: int| 0 <= a < out.len() ==> #[trigger] out[a] == sv[a].1,
    ensures
        forall|a: int, b: int| 0 <= a < b < out.len() ==> (#[trigger] out[a]).index <= (#[trigger] out[b]).index,
        forall|a: int| 0 <= a < out.len() ==> item_of_task(cl, u, #[trigger] out[a]),
        forall|j: int| 0 <= j < cl.len() && (#[trigger] cl[j]).task_uuid@ == u ==> exists|a: int| 0 <= a < out.len() && #[trigger] out[a] == cl[j],
        distinct_item_ids(out),
{
    assert forall|a: int, b: int| 0 <= a < b < out.len() implies (#[trigger] out[a]).index <= (#[trigger] out[b]).index by {
        assert(key_le(sv[a].0, sv[b].0));
        assert(sv[a] == fv[perm[a]] && sv[b] == fv[perm[b]]);
    }
    assert forall|a: int| 0 <= a < out.len() implies item_of_task(cl, u, #[trigger] out[a]) by {
        let pa = perm[a];
        assert(sv[a] == fv[pa]);
        assert(out[a] == cl[fv[pa].0.1 as int]);
    }
    assert forall|jj: int| 0 <= jj < cl.len() && (#[trigger] cl[jj]).task_uuid@ == u implies exists|a: int| 0 <= a < out.len() && #[trigger] out[a] == cl[jj] by {
        let m = choose|m: int| 0 <= m < fv.len() && fv[m].0.1 == jj;
        assert(hits(perm, m));
        let a = choose|a: int| 0 <= a < perm.len() && #[trigger] perm[a] == m;
        assert(sv[a] == fv[m]);
        assert(out[a] == cl[jj]);
    }
    assert forall|a: int, b: int| 0 <= a < out.len() && 0 <= b < out.len() && a != b implies #[trigger] out[a].uuid@ != #[trigger] out[b].uuid@ by {
        let pa = perm[a];
        let pb = perm[b];
        assert(pa != pb);
        assert(sv[a] == fv[pa] && sv[b] == fv[pb]);
        if pa < pb {
            assert(fv[pa].0.1 < fv[pb].0.1);
        } else {
            assert(fv[pb].0.1 < fv[pa].0.1);
        }
    }
}

} // verus!
