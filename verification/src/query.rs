//! The store's lists: which records each view shows, and in what order.

use vstd::prelude::*;
use crate::keymap::{KeyMap, distinct_keys};
use crate::sorting::{SortKey, key_le, sort_by_key, sorted_by_key, is_perm_map, hits};
use crate::store::{Task, Area, Tag, task_is_today};
use crate::things::{ThingsStore, eff_project, eff_area, effective_project_in, effective_area_in};
use crate::text::{trimmed, trim, same_text};
use crate::wire::{TaskStatus, TaskStart, TaskType};

verus! {

/// A record stored under its own id.
pub trait Record {
    spec fn record_id(&self) -> Seq<char>;
}

impl Record for Task {
    open spec fn record_id(&self) -> Seq<char> {
        self.uuid@
    }
}

impl Record for Area {
    open spec fn record_id(&self) -> Seq<char> {
        self.uuid@
    }
}

impl Record for Tag {
    open spec fn record_id(&self) -> Seq<char> {
        self.uuid@
    }
}

/// A list view: which records it shows, and the key it orders them by.
pub trait Query<V> {
    spec fn valid(&self) -> bool;

    spec fn admits(&self, v: V) -> bool;

    spec fn rank(&self, v: V) -> SortKey;

    fn test(&self, v: &V) -> (b: bool)
        requires
            self.valid(),
        ensures
            b == self.admits(*v),
    ;

    fn rank_of(&self, v: &V) -> (k: SortKey)
        ensures
            k == self.rank(*v),
    ;
}

/// `r` shows exactly the records of `m` that `admits` accepts, each once.
pub open spec fn shows<V: Record>(m: Map<Seq<char>, V>, admits: spec_fn(V) -> bool, r: Seq<&V>) -> bool {
    &&& forall|a: int|
        0 <= a < r.len() ==> m.contains_key((*#[trigger] r[a]).record_id()) && m[(*r[a]).record_id()]
            == *r[a] && admits(*r[a])
    &&& forall|k: Seq<char>|
        #[trigger] m.contains_key(k) && admits(m[k]) ==> exists|a: int|
            0 <= a < r.len() && (*#[trigger] r[a]).record_id() == k
    &&& forall|a: int, b: int|
        0 <= a < r.len() && 0 <= b < r.len() && a != b ==> (*#[trigger] r[a]).record_id() != (
        *#[trigger] r[b]).record_id()
}

/// `r` is in non-decreasing order of `rank`.
pub open spec fn ranked<V>(rank: spec_fn(V) -> SortKey, r: Seq<&V>) -> bool {
    forall|a: int, b: int| 0 <= a < b < r.len() ==> key_le(rank(*#[trigger] r[a]), rank(*#[trigger] r[b]))
}

/// The records of `m` that `q` admits, ordered by `q`'s key.
pub(crate) fn select<'a, V: Record, Q: Query<V>>(m: &'a KeyMap<V>, q: &Q) -> (r: Vec<&'a V>)
    requires
        m.wf(),
        q.valid(),
        forall|k: Seq<char>| #[trigger] m@.contains_key(k) ==> m@[k].record_id() == k,
    ensures
        shows(m@, |v: V| q.admits(v), r@),
        ranked(|v: V| q.rank(v), r@),
{
    proof {
        m.lemma_entries();
    }
    let ghost es = m.entries_view();
    let mut picked: Vec<(SortKey, &'a V)> = Vec::new();
    let ghost mut src: Seq<int> = Seq::empty();
    let mut i: usize = 0;
    while i < m.len()
        invariant
            m.wf(),
            q.valid(),
            es == m.entries_view(),
            i <= es.len(),
            src.len() == picked@.len(),
            forall|x: int|
                0 <= x < src.len() ==> 0 <= #[trigger] src[x] < i && *picked@[x].1 == es[src[x]].1
                    && q.admits(es[src[x]].1) && picked@[x].0 == q.rank(es[src[x]].1),
            forall|x: int, z: int| 0 <= x < z < src.len() ==> #[trigger] src[x] < #[trigger] src[z],
            forall|y: int| 0 <= y < i && q.admits((#[trigger] es[y]).1) ==> exists|x: int| 0 <= x < src.len() && src[x] == y,
        decreases es.len() - i,
    {
        let (_, v) = m.entry(i);
        let ghost old_src = src;
        if q.test(v) {
            let k = q.rank_of(v);
            picked.push((k, v));
            proof {
                src = src.push(i as int);
            }
        }
        proof {
            assert forall|y: int| 0 <= y < i + 1 && q.admits((#[trigger] es[y]).1) implies exists|x: int|
                0 <= x < src.len() && src[x] == y by {
                if y == i {
                    assert(src[src.len() - 1] == y);
                } else {
                    let x = choose|x: int| 0 <= x < old_src.len() && old_src[x] == y;
                    assert(src[x] == old_src[x]);
                }
            }
        }
        i += 1;
    }
    let sorted = sort_by_key(picked);
    let ghost perm = choose|perm: Seq<int>| is_perm_map(perm, sorted@, picked@);
    let mut out: Vec<&'a V> = Vec::new();
    let mut j: usize = 0;
    while j < sorted.len()
        invariant
            j <= sorted@.len(),
            out@.len() == j,
            forall|x: int| 0 <= x < j ==> #[trigger] out@[x] == sorted@[x].1,
        decreases sorted@.len() - j,
    {
        out.push(sorted[j].1);
        j += 1;
    }
    proof {
        let mm = m@;
        assert forall|a: int| 0 <= a < out@.len() implies mm.contains_key((*#[trigger] out@[a]).record_id())
            && mm[(*out@[a]).record_id()] == *out@[a] && q.admits(*out@[a]) by {
            let x = perm[a];
            assert(sorted@[a] == picked@[x]);
            assert(mm.contains_key(es[src[x]].0@));
        }
        assert forall|k: Seq<char>| #[trigger] mm.contains_key(k) && q.admits(mm[k]) implies exists|a: int|
            0 <= a < out@.len() && (*#[trigger] out@[a]).record_id() == k by {
            let y = choose|y: int| 0 <= y < es.len() && #[trigger] es[y].0@ == k;
            assert(mm[k] == es[y].1);
            let x = choose|x: int| 0 <= x < src.len() && src[x] == y;
            assert(hits(perm, x));
            let a = choose|a: int| 0 <= a < perm.len() && #[trigger] perm[a] == x;
            assert(sorted@[a] == picked@[x]);
            assert((*out@[a]).record_id() == k);
        }
        assert forall|a: int, b: int| 0 <= a < out@.len() && 0 <= b < out@.len() && a != b implies (
        *#[trigger] out@[a]).record_id() != (*#[trigger] out@[b]).record_id() by {
            let x = perm[a];
            let z = perm[b];
            assert(x != z);
            assert(sorted@[a] == picked@[x] && sorted@[b] == picked@[z]);
            if x < z {
                assert(src[x] < src[z]);
            } else {
                assert(src[z] < src[x]);
            }
            assert(mm.contains_key(es[src[x]].0@) && mm.contains_key(es[src[z]].0@));
        }
        assert forall|a: int, b: int| 0 <= a < b < out@.len() implies key_le(
            q.rank(*#[trigger] out@[a]),
            q.rank(*#[trigger] out@[b]),
        ) by {
            assert(key_le(sorted@[a].0, sorted@[b].0));
            let x = perm[a];
            let z = perm[b];
            assert(sorted@[a] == picked@[x] && sorted@[b] == picked@[z]);
            assert(0 <= src[x] && 0 <= src[z]);
            assert(picked@[x].0 == q.rank(*picked@[x].1));
            assert(picked@[z].0 == q.rank(*picked@[z].1));
        }
    }
    out
}

/// Position order.
pub open spec fn index_rank(t: Task) -> SortKey {
    (t.index as i128, 0i128, 0i128)
}

/// Whether a title has a non-blank character.
pub open spec fn has_title(s: Seq<char>) -> bool {
    trimmed(s).len() > 0
}

pub(crate) fn has_text(s: &String) -> (r: bool)
    ensures
        r == has_title(s@),
{
    let t = trim(s.as_str());
    !t.as_str().is_empty()
}

fn is_task6(t: &Task) -> (r: bool)
    ensures
        r == (t.entity@ == "Task6"@),
{
    same_text(t.entity.as_str(), "Task6")
}

/// `tasks(status, trashed, item_type)`: the tasks with the given status,
/// trash flag and type (each when given), headings aside.
pub open spec fn in_task_list(
    status: Option<TaskStatus>,
    trashed: Option<bool>,
    item_type: Option<TaskType>,
    t: Task,
) -> bool {
    &&& (match trashed {
        Some(x) => t.trashed == x,
        None => true,
    })
    &&& (match status {
        Some(x) => t.status == x,
        None => true,
    })
    &&& (match item_type {
        Some(x) => t.item_type == x,
        None => true,
    })
    &&& t.item_type != TaskType::Heading
}

struct TaskFilter {
    status: Option<TaskStatus>,
    trashed: Option<bool>,
    item_type: Option<TaskType>,
}

impl Query<Task> for TaskFilter {
    closed spec fn valid(&self) -> bool {
        true
    }

    closed spec fn admits(&self, t: Task) -> bool {
        in_task_list(self.status, self.trashed, self.item_type, t)
    }

    closed spec fn rank(&self, t: Task) -> SortKey {
        index_rank(t)
    }

    fn test(&self, t: &Task) -> (b: bool) {
        let trashed_ok = match self.trashed {
            Some(x) => t.trashed == x,
            None => true,
        };
        let status_ok = match self.status {
            Some(x) => t.status == x,
            None => true,
        };
        let type_ok = match self.item_type {
            Some(x) => t.item_type == x,
            None => true,
        };
        trashed_ok && status_ok && type_ok && !t.is_heading()
    }

    fn rank_of(&self, t: &Task) -> (k: SortKey) {
        (t.index as i128, 0, 0)
    }
}

/// The Today list for the day `today`: open, titled to-dos started on or before it.
pub open spec fn in_today(t: Task, today: i64) -> bool {
    &&& !t.trashed
    &&& t.status == TaskStatus::Incomplete
    &&& t.item_type != TaskType::Heading
    &&& t.item_type != TaskType::Project
    &&& has_title(t.title@)
    &&& t.entity@ == "Task6"@
    &&& task_is_today(t, today)
}

/// Today order: unordered tasks first, latest start first; then by today
/// index, highest first; ties by position, highest first.
pub open spec fn today_rank(t: Task) -> SortKey {
    if t.today_index == 0 {
        (
            0i128,
            (-(match t.start_date {
                Some(d) => d as int,
                None => 0int,
            })) as i128,
            (-(t.index as int)) as i128,
        )
    } else {
        (1i128, (-(t.today_index as int)) as i128, (-(t.index as int)) as i128)
    }
}

struct TodayQuery {
    today: i64,
}

impl Query<Task> for TodayQuery {
    closed spec fn valid(&self) -> bool {
        true
    }

    closed spec fn admits(&self, t: Task) -> bool {
        in_today(t, self.today)
    }

    closed spec fn rank(&self, t: Task) -> SortKey {
        today_rank(t)
    }

    fn test(&self, t: &Task) -> (b: bool) {
        !t.trashed && t.status == TaskStatus::Incomplete && !t.is_heading() && !t.is_project()
            && has_text(&t.title) && is_task6(t) && t.is_today(self.today)
    }

    fn rank_of(&self, t: &Task) -> (k: SortKey) {
        if t.today_index == 0 {
            let sr: i64 = match t.start_date {
                Some(d) => d,
                None => 0,
            };
            (0, -(sr as i128), -(t.index as i128))
        } else {
            (1, -(t.today_index as i128), -(t.index as i128))
        }
    }
}

/// The Inbox: open, titled to-dos in the inbox, with no project or area.
pub open spec fn in_inbox(tasks: Map<Seq<char>, Task>, t: Task) -> bool {
    &&& !t.trashed
    &&& t.status == TaskStatus::Incomplete
    &&& t.start == TaskStart::Inbox
    &&& eff_project(tasks, t) is None
    &&& eff_area(tasks, t) is None
    &&& t.item_type != TaskType::Project
    &&& t.item_type != TaskType::Heading
    &&& has_title(t.title@)
    &&& t.creation_date is Some
    &&& t.entity@ == "Task6"@
}

struct InboxQuery<'a> {
    tasks: &'a KeyMap<Task>,
}

impl<'a> Query<Task> for InboxQuery<'a> {
    closed spec fn valid(&self) -> bool {
        self.tasks.wf()
    }

    closed spec fn admits(&self, t: Task) -> bool {
        in_inbox(self.tasks@, t)
    }

    closed spec fn rank(&self, t: Task) -> SortKey {
        index_rank(t)
    }

    fn test(&self, t: &Task) -> (b: bool) {
        !t.trashed && t.status == TaskStatus::Incomplete && t.start == TaskStart::Inbox
            && effective_project_in(self.tasks, t).is_none() && effective_area_in(self.tasks, t).is_none()
            && !t.is_project() && !t.is_heading() && has_text(&t.title) && t.creation_date.is_some()
            && is_task6(t)
    }

    fn rank_of(&self, t: &Task) -> (k: SortKey) {
        (t.index as i128, 0, 0)
    }
}

/// A task's project does not hide it from Anytime: it has none, or an
/// unknown one, or one that is open, not in Someday and started by `today`.
pub open spec fn project_visible(tasks: Map<Seq<char>, Task>, t: Task, today: i64) -> bool {
    match eff_project(tasks, t) {
        None => true,
        Some(p) => !tasks.contains_key(p) || {
            let pr = tasks[p];
            &&& !pr.trashed
            &&& pr.status == TaskStatus::Incomplete
            &&& pr.start != TaskStart::Someday
            &&& match pr.start_date {
                Some(d) => d <= today,
                None => true,
            }
        },
    }
}

/// The Anytime list for the day `today`.
pub open spec fn in_anytime(tasks: Map<Seq<char>, Task>, t: Task, today: i64) -> bool {
    &&& !t.trashed
    &&& t.status == TaskStatus::Incomplete
    &&& t.start == TaskStart::Anytime
    &&& t.item_type != TaskType::Project
    &&& t.item_type != TaskType::Heading
    &&& has_title(t.title@)
    &&& t.entity@ == "Task6"@
    &&& match t.start_date {
        Some(d) => d <= today,
        None => true,
    }
    &&& project_visible(tasks, t, today)
}

struct AnytimeQuery<'a> {
    tasks: &'a KeyMap<Task>,
    today: i64,
}

impl<'a> Query<Task> for AnytimeQuery<'a> {
    closed spec fn valid(&self) -> bool {
        self.tasks.wf()
    }

    closed spec fn admits(&self, t: Task) -> bool {
        in_anytime(self.tasks@, t, self.today)
    }

    closed spec fn rank(&self, t: Task) -> SortKey {
        index_rank(t)
    }

    fn test(&self, t: &Task) -> (b: bool) {
        if t.trashed || t.status != TaskStatus::Incomplete || t.start != TaskStart::Anytime || t.is_project()
            || t.is_heading() || !has_text(&t.title) || !is_task6(t) {
            return false;
        }
        if let Some(d) = t.start_date {
            if d > self.today {
                return false;
            }
        }
        match effective_project_in(self.tasks, t) {
            None => true,
            Some(p) => match self.tasks.get(p.as_str()) {
                None => true,
                Some(pr) => {
                    let started = match pr.start_date {
                        Some(d) => d <= self.today,
                        None => true,
                    };
                    !pr.trashed && pr.status == TaskStatus::Incomplete && pr.start != TaskStart::Someday && started
                },
            },
        }
    }

    fn rank_of(&self, t: &Task) -> (k: SortKey) {
        (t.index as i128, 0, 0)
    }
}

/// The Someday list: open, titled items in Someday with no start date,
/// recurrence templates aside, and to-dos only outside projects.
pub open spec fn in_someday_list(tasks: Map<Seq<char>, Task>, t: Task) -> bool {
    &&& !t.trashed
    &&& t.status == TaskStatus::Incomplete
    &&& t.start == TaskStart::Someday
    &&& t.item_type != TaskType::Heading
    &&& has_title(t.title@)
    &&& t.entity@ == "Task6"@
    &&& !(t.recurrence_rule is Some && t.recurrence_templates@.len() == 0)
    &&& t.start_date is None
    &&& (t.item_type == TaskType::Project || eff_project(tasks, t) is None)
}

struct SomedayQuery<'a> {
    tasks: &'a KeyMap<Task>,
}

impl<'a> Query<Task> for SomedayQuery<'a> {
    closed spec fn valid(&self) -> bool {
        self.tasks.wf()
    }

    closed spec fn admits(&self, t: Task) -> bool {
        in_someday_list(self.tasks@, t)
    }

    closed spec fn rank(&self, t: Task) -> SortKey {
        index_rank(t)
    }

    fn test(&self, t: &Task) -> (b: bool) {
        !t.trashed && t.status == TaskStatus::Incomplete && t.start == TaskStart::Someday && !t.is_heading()
            && has_text(&t.title) && is_task6(t) && !t.is_recurrence_template() && t.start_date.is_none()
            && (t.is_project() || effective_project_in(self.tasks, t).is_none())
    }

    fn rank_of(&self, t: &Task) -> (k: SortKey) {
        (t.index as i128, 0, 0)
    }
}

/// The projects with the given status (any when none is given).
pub open spec fn in_project_list(status: Option<TaskStatus>, t: Task) -> bool {
    &&& !t.trashed
    &&& t.item_type == TaskType::Project
    &&& t.entity@ == "Task6"@
    &&& match status {
        Some(s) => t.status == s,
        None => true,
    }
}

struct ProjectQuery {
    status: Option<TaskStatus>,
}

impl Query<Task> for ProjectQuery {
    closed spec fn valid(&self) -> bool {
        true
    }

    closed spec fn admits(&self, t: Task) -> bool {
        in_project_list(self.status, t)
    }

    closed spec fn rank(&self, t: Task) -> SortKey {
        index_rank(t)
    }

    fn test(&self, t: &Task) -> (b: bool) {
        let status_ok = match self.status {
            Some(s) => t.status == s,
            None => true,
        };
        !t.trashed && t.is_project() && is_task6(t) && status_ok
    }

    fn rank_of(&self, t: &Task) -> (k: SortKey) {
        (t.index as i128, 0, 0)
    }
}

/// The Logbook between two local days: closed to-dos and projects whose
/// stop day (`days`, by task id) is within the bounds.
pub open spec fn in_logbook(
    from: Option<i64>,
    to: Option<i64>,
    days: Map<Seq<char>, i64>,
    t: Task,
) -> bool {
    &&& !t.trashed
    &&& (t.status == TaskStatus::Completed || t.status == TaskStatus::Canceled)
    &&& t.item_type != TaskType::Heading
    &&& t.entity@ == "Task6"@
    &&& t.stop_date is Some
    &&& !(from is Some && days.contains_key(t.uuid@) && days[t.uuid@] < from.unwrap())
    &&& !(to is Some && days.contains_key(t.uuid@) && days[t.uuid@] > to.unwrap())
}

/// Logbook order: latest stop first, then highest position first.
pub open spec fn logbook_rank(t: Task) -> SortKey {
    (
        (-(match t.stop_date {
            Some(d) => d as int,
            None => 0int,
        })) as i128,
        (-(t.index as int)) as i128,
        0i128,
    )
}

struct LogbookQuery<'a> {
    from: Option<i64>,
    to: Option<i64>,
    days: &'a KeyMap<i64>,
}

impl<'a> Query<Task> for LogbookQuery<'a> {
    closed spec fn valid(&self) -> bool {
        self.days.wf()
    }

    closed spec fn admits(&self, t: Task) -> bool {
        in_logbook(self.from, self.to, self.days@, t)
    }

    closed spec fn rank(&self, t: Task) -> SortKey {
        logbook_rank(t)
    }

    fn test(&self, t: &Task) -> (b: bool) {
        if t.trashed || !(t.status == TaskStatus::Completed || t.status == TaskStatus::Canceled) || t.is_heading()
            || !is_task6(t) || t.stop_date.is_none() {
            return false;
        }
        match self.days.get(t.uuid.as_str()) {
            None => true,
            Some(sd) => {
                let after_from = match self.from {
                    Some(f) => *sd >= f,
                    None => true,
                };
                let before_to = match self.to {
                    Some(u) => *sd <= u,
                    None => true,
                };
                after_from && before_to
            },
        }
    }

    fn rank_of(&self, t: &Task) -> (k: SortKey) {
        let sp: i64 = match t.stop_date {
            Some(d) => d,
            None => 0,
        };
        (-(sp as i128), -(t.index as i128), 0)
    }
}

struct AllAreas;

impl Query<Area> for AllAreas {
    closed spec fn valid(&self) -> bool {
        true
    }

    closed spec fn admits(&self, a: Area) -> bool {
        true
    }

    closed spec fn rank(&self, a: Area) -> SortKey {
        (a.index as i128, 0i128, 0i128)
    }

    fn test(&self, a: &Area) -> (b: bool) {
        true
    }

    fn rank_of(&self, a: &Area) -> (k: SortKey) {
        (a.index as i128, 0, 0)
    }
}

struct TitledTags;

impl Query<Tag> for TitledTags {
    closed spec fn valid(&self) -> bool {
        true
    }

    closed spec fn admits(&self, t: Tag) -> bool {
        has_title(t.title@)
    }

    closed spec fn rank(&self, t: Tag) -> SortKey {
        (t.index as i128, 0i128, 0i128)
    }

    fn test(&self, t: &Tag) -> (b: bool) {
        has_text(&t.title)
    }

    fn rank_of(&self, t: &Tag) -> (k: SortKey) {
        (t.index as i128, 0, 0)
    }
}

impl ThingsStore {
    /// The tasks with the given status, trash flag and type, by position.
    pub fn tasks(&self, status: Option<TaskStatus>, trashed: Option<bool>, item_type: Option<TaskType>) -> (r: Vec<&Task>)
        requires
            self.wf(),
        ensures
            shows(self.tasks_by_uuid@, |t: Task| in_task_list(status, trashed, item_type, t), r@),
            ranked(|t: Task| index_rank(t), r@),
    {
        let q = TaskFilter { status, trashed, item_type };
        let r = select(&self.tasks_by_uuid, &q);
        proof {
            assert((|v: Task| q.admits(v)) =~= (|t: Task| in_task_list(status, trashed, item_type, t)));
            assert((|v: Task| q.rank(v)) =~= (|t: Task| index_rank(t)));
        }
        r
    }

    /// The Today list for the day `today` (a UTC midnight timestamp).
    pub fn today_at(&self, today: i64) -> (r: Vec<&Task>)
        requires
            self.wf(),
        ensures
            shows(self.tasks_by_uuid@, |t: Task| in_today(t, today), r@),
            ranked(|t: Task| today_rank(t), r@),
            forall|a: int| 0 <= a < r@.len() ==> {
                let t = *#[trigger] r@[a];
                &&& t.status == TaskStatus::Incomplete
                &&& !t.trashed
                &&& t.start == TaskStart::Anytime
                &&& t.start_date matches Some(d) && d <= today
            },
    {
        let q = TodayQuery { today };
        let r = select(&self.tasks_by_uuid, &q);
        proof {
            assert((|v: Task| q.admits(v)) =~= (|t: Task| in_today(t, today)));
            assert((|v: Task| q.rank(v)) =~= (|t: Task| today_rank(t)));
            lemma_today_lists_open_started(self.tasks_by_uuid@, today, r@);
        }
        r
    }

    /// The Inbox, by position.
    pub fn inbox(&self) -> (r: Vec<&Task>)
        requires
            self.wf(),
        ensures
            shows(self.tasks_by_uuid@, |t: Task| in_inbox(self.tasks_by_uuid@, t), r@),
            ranked(|t: Task| index_rank(t), r@),
            forall|a: int| 0 <= a < r@.len() ==> {
                let t = *#[trigger] r@[a];
                &&& t.status == TaskStatus::Incomplete
                &&& !t.trashed
                &&& t.start == TaskStart::Inbox
                &&& eff_project(self.tasks_by_uuid@, t) is None
                &&& eff_area(self.tasks_by_uuid@, t) is None
            },
    {
        let q = InboxQuery { tasks: &self.tasks_by_uuid };
        let r = select(&self.tasks_by_uuid, &q);
        proof {
            assert((|v: Task| q.admits(v)) =~= (|t: Task| in_inbox(self.tasks_by_uuid@, t)));
            assert((|v: Task| q.rank(v)) =~= (|t: Task| index_rank(t)));
            lemma_inbox_lists_open_unfiled(self.tasks_by_uuid@, r@);
        }
        r
    }

    /// The Anytime list for the day `today` (a UTC midnight timestamp), by position.
    pub fn anytime_at(&self, today: i64) -> (r: Vec<&Task>)
        requires
            self.wf(),
        ensures
            shows(self.tasks_by_uuid@, |t: Task| in_anytime(self.tasks_by_uuid@, t, today), r@),
            ranked(|t: Task| index_rank(t), r@),
            forall|a: int| 0 <= a < r@.len() ==> {
                let t = *#[trigger] r@[a];
                let tasks = self.tasks_by_uuid@;
                &&& t.status == TaskStatus::Incomplete
                &&& !t.trashed
                &&& t.start == TaskStart::Anytime
                &&& (t.start_date matches Some(d) ==> d <= today)
                &&& (eff_project(tasks, t) matches Some(p) ==> tasks.contains_key(p) ==> {
                    &&& tasks[p].status == TaskStatus::Incomplete
                    &&& !tasks[p].trashed
                    &&& tasks[p].start != TaskStart::Someday
                    &&& (tasks[p].start_date matches Some(d) ==> d <= today)
                })
            },
    {
        let q = AnytimeQuery { tasks: &self.tasks_by_uuid, today };
        let r = select(&self.tasks_by_uuid, &q);
        proof {
            assert((|v: Task| q.admits(v)) =~= (|t: Task| in_anytime(self.tasks_by_uuid@, t, today)));
            assert((|v: Task| q.rank(v)) =~= (|t: Task| index_rank(t)));
            lemma_anytime_lists_open_in_open_projects(self.tasks_by_uuid@, today, r@);
        }
        r
    }

    /// The Someday list, by position.
    pub fn someday(&self) -> (r: Vec<&Task>)
        requires
            self.wf(),
        ensures
            shows(self.tasks_by_uuid@, |t: Task| in_someday_list(self.tasks_by_uuid@, t), r@),
            ranked(|t: Task| index_rank(t), r@),
            forall|a: int| 0 <= a < r@.len() ==> {
                let t = *#[trigger] r@[a];
                &&& t.status == TaskStatus::Incomplete
                &&& !t.trashed
                &&& t.start == TaskStart::Someday
                &&& t.start_date is None
            },
    {
        let q = SomedayQuery { tasks: &self.tasks_by_uuid };
        let r = select(&self.tasks_by_uuid, &q);
        proof {
            assert((|v: Task| q.admits(v)) =~= (|t: Task| in_someday_list(self.tasks_by_uuid@, t)));
            assert((|v: Task| q.rank(v)) =~= (|t: Task| index_rank(t)));
            lemma_someday_lists_open_unstarted(self.tasks_by_uuid@, r@);
        }
        r
    }

    /// The Logbook between the local days `from` and `to`, given the local
    /// day each task stopped on (`days`, by task id); latest first.
    pub fn logbook_at(&self, from: Option<i64>, to: Option<i64>, days: &KeyMap<i64>) -> (r: Vec<&Task>)
        requires
            self.wf(),
            days.wf(),
        ensures
            shows(self.tasks_by_uuid@, |t: Task| in_logbook(from, to, days@, t), r@),
            ranked(|t: Task| logbook_rank(t), r@),
            forall|a: int| 0 <= a < r@.len() ==> {
                let t = *#[trigger] r@[a];
                &&& (t.status == TaskStatus::Completed || t.status == TaskStatus::Canceled)
                &&& !t.trashed
                &&& t.stop_date is Some
            },
    {
        let q = LogbookQuery { from, to, days };
        let r = select(&self.tasks_by_uuid, &q);
        proof {
            assert((|v: Task| q.admits(v)) =~= (|t: Task| in_logbook(from, to, days@, t)));
            assert((|v: Task| q.rank(v)) =~= (|t: Task| logbook_rank(t)));
            lemma_logbook_lists_closed(self.tasks_by_uuid@, from, to, days@, r@);
        }
        r
    }

    /// The projects with the given status, by position.
    pub fn projects(&self, status: Option<TaskStatus>) -> (r: Vec<&Task>)
        requires
            self.wf(),
        ensures
            shows(self.tasks_by_uuid@, |t: Task| in_project_list(status, t), r@),
            ranked(|t: Task| index_rank(t), r@),
    {
        let q = ProjectQuery { status };
        let r = select(&self.tasks_by_uuid, &q);
        proof {
            assert((|v: Task| q.admits(v)) =~= (|t: Task| in_project_list(status, t)));
            assert((|v: Task| q.rank(v)) =~= (|t: Task| index_rank(t)));
        }
        r
    }

    /// All areas, by position.
    pub fn areas(&self) -> (r: Vec<&Area>)
        requires
            self.wf(),
        ensures
            shows(self.areas_by_uuid@, |a: Area| true, r@),
            ranked(|a: Area| (a.index as i128, 0i128, 0i128), r@),
    {
        let q = AllAreas;
        let r = select(&self.areas_by_uuid, &q);
        proof {
            assert((|v: Area| q.admits(v)) =~= (|a: Area| true));
            assert((|v: Area| q.rank(v)) =~= (|a: Area| (a.index as i128, 0i128, 0i128)));
        }
        r
    }

    /// The tags with a title, by position.
    pub fn tags(&self) -> (r: Vec<&Tag>)
        requires
            self.wf(),
        ensures
            shows(self.tags_by_uuid@, |t: Tag| has_title(t.title@), r@),
            ranked(|t: Tag| (t.index as i128, 0i128, 0i128), r@),
    {
        let q = TitledTags;
        let r = select(&self.tags_by_uuid, &q);
        proof {
            assert((|v: Tag| q.admits(v)) =~= (|t: Tag| has_title(t.title@)));
            assert((|v: Tag| q.rank(v)) =~= (|t: Tag| (t.index as i128, 0i128, 0i128)));
        }
        r
    }
}

/// Today lists only open, untrashed tasks that start in Anytime on or before
/// `today`.
pub proof fn lemma_today_lists_open_started(tasks: Map<Seq<char>, Task>, today: i64, r: Seq<&Task>)
    requires
        shows(tasks, |t: Task| in_today(t, today), r),
    ensures
        forall|a: int| 0 <= a < r.len() ==> {
            let t = *#[trigger] r[a];
            &&& t.status == TaskStatus::Incomplete
            &&& !t.trashed
            &&& t.start == TaskStart::Anytime
            &&& t.start_date matches Some(d) && d <= today
        },
{
    assert forall|a: int| 0 <= a < r.len() implies {
        let t = *#[trigger] r[a];
        &&& t.status == TaskStatus::Incomplete
        &&& !t.trashed
        &&& t.start == TaskStart::Anytime
        &&& t.start_date matches Some(d) && d <= today
    } by {
        assert(in_today(*r[a], today));
    }
}

/// The Inbox lists only open, untrashed tasks that start in the Inbox and
/// belong to no project and no area.
pub proof fn lemma_inbox_lists_open_unfiled(tasks: Map<Seq<char>, Task>, r: Seq<&Task>)
    requires
        shows(tasks, |t: Task| in_inbox(tasks, t), r),
    ensures
        forall|a: int| 0 <= a < r.len() ==> {
            let t = *#[trigger] r[a];
            &&& t.status == TaskStatus::Incomplete
            &&& !t.trashed
            &&& t.start == TaskStart::Inbox
            &&& eff_project(tasks, t) is None
            &&& eff_area(tasks, t) is None
        },
{
    assert forall|a: int| 0 <= a < r.len() implies {
        let t = *#[trigger] r[a];
        &&& t.status == TaskStatus::Incomplete
        &&& !t.trashed
        &&& t.start == TaskStart::Inbox
        &&& eff_project(tasks, t) is None
        &&& eff_area(tasks, t) is None
    } by {
        assert(in_inbox(tasks, *r[a]));
    }
}

/// Anytime lists only open, untrashed tasks that start in Anytime and are
/// started by `today`; and when a listed task's project is a known task, that
/// project is open, untrashed, not in Someday and started by `today`.
pub proof fn lemma_anytime_lists_open_in_open_projects(tasks: Map<Seq<char>, Task>, today: i64, r: Seq<&Task>)
    requires
        shows(tasks, |t: Task| in_anytime(tasks, t, today), r),
    ensures
        forall|a: int| 0 <= a < r.len() ==> {
            let t = *#[trigger] r[a];
            &&& t.status == TaskStatus::Incomplete
            &&& !t.trashed
            &&& t.start == TaskStart::Anytime
            &&& (t.start_date matches Some(d) ==> d <= today)
            &&& (eff_project(tasks, t) matches Some(p) ==> tasks.contains_key(p) ==> {
                &&& tasks[p].status == TaskStatus::Incomplete
                &&& !tasks[p].trashed
                &&& tasks[p].start != TaskStart::Someday
                &&& (tasks[p].start_date matches Some(d) ==> d <= today)
            })
        },
{
    assert forall|a: int| 0 <= a < r.len() implies {
        let t = *#[trigger] r[a];
        &&& t.status == TaskStatus::Incomplete
        &&& !t.trashed
        &&& t.start == TaskStart::Anytime
        &&& (t.start_date matches Some(d) ==> d <= today)
        &&& (eff_project(tasks, t) matches Some(p) ==> tasks.contains_key(p) ==> {
            &&& tasks[p].status == TaskStatus::Incomplete
            &&& !tasks[p].trashed
            &&& tasks[p].start != TaskStart::Someday
            &&& (tasks[p].start_date matches Some(d) ==> d <= today)
        })
    } by {
        assert(in_anytime(tasks, *r[a], today));
    }
}

/// Someday lists only open, untrashed tasks in Someday with no start date.
pub proof fn lemma_someday_lists_open_unstarted(tasks: Map<Seq<char>, Task>, r: Seq<&Task>)
    requires
        shows(tasks, |t: Task| in_someday_list(tasks, t), r),
    ensures
        forall|a: int| 0 <= a < r.len() ==> {
            let t = *#[trigger] r[a];
            &&& t.status == TaskStatus::Incomplete
            &&& !t.trashed
            &&& t.start == TaskStart::Someday
            &&& t.start_date is None
        },
{
    assert forall|a: int| 0 <= a < r.len() implies {
        let t = *#[trigger] r[a];
        &&& t.status == TaskStatus::Incomplete
        &&& !t.trashed
        &&& t.start == TaskStart::Someday
        &&& t.start_date is None
    } by {
        assert(in_someday_list(tasks, *r[a]));
    }
}

/// The Logbook lists only untrashed tasks that are completed or canceled and
/// have a stop date.
pub proof fn lemma_logbook_lists_closed(
    tasks: Map<Seq<char>, Task>,
    from: Option<i64>,
    to: Option<i64>,
    days: Map<Seq<char>, i64>,
    r: Seq<&Task>,
)
    requires
        shows(tasks, |t: Task| in_logbook(from, to, days, t), r),
    ensures
        forall|a: int| 0 <= a < r.len() ==> {
            let t = *#[trigger] r[a];
            &&& (t.status == TaskStatus::Completed || t.status == TaskStatus::Canceled)
            &&& !t.trashed
            &&& t.stop_date is Some
        },
{
    assert forall|a: int| 0 <= a < r.len() implies {
        let t = *#[trigger] r[a];
        &&& (t.status == TaskStatus::Completed || t.status == TaskStatus::Canceled)
        &&& !t.trashed
        &&& t.stop_date is Some
    } by {
        assert(in_logbook(from, to, days, *r[a]));
    }
}

} // verus!
