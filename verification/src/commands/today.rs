//! The `today` and `anytime` commands: which tasks their views list, in
//! what order, and how wide the Today view's id column is.

use vstd::prelude::*;
use crate::commands::dispatch::{AnytimeArgs, TodayArgs};
use crate::query::{in_anytime, index_rank};
use crate::lookup::width_needed;
use crate::query::{Query, select, shows, ranked, has_title, has_text};
use crate::sorting::SortKey;
use crate::store::{Task, task_is_today};
use crate::text::{same_text, views};
use crate::things::{ThingsStore, eff_area, eff_project};
use crate::wire::{TaskStart, TaskStatus, TaskType};

verus! {

/// What the `today` command lists for the day `today`: open, untrashed,
/// titled to-dos and projects (headings aside) that are due today or set for
/// the evening.
pub open spec fn in_today_view(t: Task, today: i64) -> bool {
    &&& !t.trashed
    &&& t.status == TaskStatus::Incomplete
    &&& t.item_type != TaskType::Heading
    &&& has_title(t.title@)
    &&& t.entity@ == "Task6"@
    &&& (task_is_today(t, today) || t.evening)
}

/// The order of the Today view: latest today-index reference first (none
/// counts as zero), then lowest today index, then highest position.
pub open spec fn today_view_rank(t: Task) -> SortKey {
    (
        (-(match t.today_index_reference {
            Some(r) => r as int,
            None => 0int,
        })) as i128,
        t.today_index as i128,
        (-(t.index as int)) as i128,
    )
}

/// The project and then the area of a task, each when it has one.
pub open spec fn context_ids(tasks: Map<Seq<char>, Task>, t: Task) -> Seq<Seq<char>> {
    (match eff_project(tasks, t) {
        Some(p) => seq![p],
        None => seq![],
    }) + (match eff_area(tasks, t) {
        Some(a) => seq![a],
        None => seq![],
    })
}

/// The projects and areas of the listed tasks, task by task.
pub open spec fn contexts_of(tasks: Map<Seq<char>, Task>, items: Seq<&Task>) -> Seq<Seq<char>>
    decreases items.len(),
{
    if items.len() == 0 {
        seq![]
    } else {
        contexts_of(tasks, items.drop_last()) + context_ids(tasks, *items.last())
    }
}

/// The ids the id column must tell apart: the listed tasks', then their
/// projects' and areas'.
pub open spec fn today_id_candidates(tasks: Map<Seq<char>, Task>, items: Seq<&Task>) -> Seq<Seq<char>> {
    items.map_values(|t: &Task| t.uuid@) + contexts_of(tasks, items)
}

/// The Today view lists only open, untrashed tasks that are set for the
/// evening or start in Anytime on or before `today`.
pub proof fn lemma_today_view_lists_open(tasks: Map<Seq<char>, Task>, today: i64, r: Seq<&Task>)
    requires
        shows(tasks, |t: Task| in_today_view(t, today), r),
    ensures
        forall|a: int| 0 <= a < r.len() ==> {
            let t = *#[trigger] r[a];
            &&& t.status == TaskStatus::Incomplete
            &&& !t.trashed
            &&& (t.evening || (t.start == TaskStart::Anytime && (t.start_date matches Some(d) && d <= today)))
        },
{
    assert forall|a: int| 0 <= a < r.len() implies {
        let t = *#[trigger] r[a];
        &&& t.status == TaskStatus::Incomplete
        &&& !t.trashed
        &&& (t.evening || (t.start == TaskStart::Anytime && (t.start_date matches Some(d) && d <= today)))
    } by {
        assert(in_today_view(*r[a], today));
    }
}

/// The tasks of the Today view, and the width of its id column.
pub struct TodayList<'a> {
    pub items: Vec<&'a Task>,
    pub id_prefix_len: usize,
}

struct TodayViewQuery {
    today: i64,
}

fn is_task6(t: &Task) -> (r: bool)
    ensures
        r == (t.entity@ == "Task6"@),
{
    same_text(t.entity.as_str(), "Task6")
}

impl Query<Task> for TodayViewQuery {
    closed spec fn valid(&self) -> bool {
        true
    }

    closed spec fn admits(&self, t: Task) -> bool {
        in_today_view(t, self.today)
    }

    closed spec fn rank(&self, t: Task) -> SortKey {
        today_view_rank(t)
    }

    fn test(&self, t: &Task) -> (b: bool) {
        !t.trashed && t.status == TaskStatus::Incomplete && !t.is_heading() && has_text(&t.title) && is_task6(t)
            && (t.is_today(self.today) || t.evening)
    }

    fn rank_of(&self, t: &Task) -> (k: SortKey) {
        let tir: i64 = match t.today_index_reference {
            Some(r) => r,
            None => 0,
        };
        (-(tir as i128), t.today_index as i128, -(t.index as i128))
    }
}

fn id_candidates(store: &ThingsStore, items: &Vec<&Task>) -> (r: Vec<String>)
    requires
        store.wf(),
    ensures
        views(r@) == today_id_candidates(store.tasks_by_uuid@, items@),
{
    let ghost tasks = store.tasks_by_uuid@;
    let mut r: Vec<String> = Vec::new();
    let mut i: usize = 0;
    while i < items.len()
        invariant
            i <= items@.len(),
            views(r@) == items@.take(i as int).map_values(|t: &Task| t.uuid@),
        decreases items@.len() - i,
    {
        let ghost before = views(r@);
        r.push(items[i].uuid.clone());
        proof {
            let f = |t: &Task| t.uuid@;
            assert(items@.take(i + 1) =~= items@.take(i as int).push(items@[i as int]));
            assert(items@.take(i + 1).map_values(f) =~= items@.take(i as int).map_values(f).push(f(items@[i as int])));
            assert(views(r@) =~= before.push(items@[i as int].uuid@));
        }
        i += 1;
    }
    proof {
        assert(items@.take(items@.len() as int) =~= items@);
    }
    let ghost heads = views(r@);
    let mut j: usize = 0;
    proof {
        assert(items@.take(0) =~= seq![]);
        assert(views(r@) =~= heads + contexts_of(tasks, items@.take(0)));
    }
    while j < items.len()
        invariant
            store.wf(),
            tasks == store.tasks_by_uuid@,
            j <= items@.len(),
            heads == items@.map_values(|t: &Task| t.uuid@),
            views(r@) == heads + contexts_of(tasks, items@.take(j as int)),
        decreases items@.len() - j,
    {
        let t = items[j];
        let ghost before = views(r@);
        match store.effective_project_uuid(t) {
            Some(p) => r.push(p),
            None => {},
        }
        match store.effective_area_uuid(t) {
            Some(a) => r.push(a),
            None => {},
        }
        proof {
            assert(items@.take(j + 1).drop_last() =~= items@.take(j as int));
            assert(items@.take(j + 1).last() == items@[j as int]);
            assert(views(r@) =~= before + context_ids(tasks, *t));
        }
        j += 1;
    }
    proof {
        assert(items@.take(items@.len() as int) =~= items@);
    }
    r
}

impl TodayArgs {
    /// What the Today view lists on the day `today`: its tasks in order, and
    /// an id column wide enough to tell apart them and their projects and
    /// areas (none for an empty list).
    pub fn select<'a>(&self, store: &'a ThingsStore, today: i64) -> (r: TodayList<'a>)
        requires
            store.wf(),
        ensures
            shows(store.tasks_by_uuid@, |t: Task| in_today_view(t, today), r.items@),
            ranked(|t: Task| today_view_rank(t), r.items@),
            forall|a: int| 0 <= a < r.items@.len() ==> {
                let t = *#[trigger] r.items@[a];
                &&& t.status == TaskStatus::Incomplete
                &&& !t.trashed
                &&& (t.evening || (t.start == TaskStart::Anytime && (t.start_date matches Some(d) && d <= today)))
            },
            exists|ids: Seq<String>| #[trigger] views(ids) == today_id_candidates(store.tasks_by_uuid@, r.items@)
                && r.id_prefix_len == (if ids.len() == 0 { 0 } else { width_needed(store.short_ids@, ids) }),
    {
        let q = TodayViewQuery { today };
        let items = select(&store.tasks_by_uuid, &q);
        proof {
            assert((|v: Task| q.admits(v)) =~= (|t: Task| in_today_view(t, today)));
            assert((|v: Task| q.rank(v)) =~= (|t: Task| today_view_rank(t)));
            lemma_today_view_lists_open(store.tasks_by_uuid@, today, items@);
        }
        let ids = id_candidates(store, &items);
        let id_prefix_len = store.unique_prefix_length(&ids);
        proof {
            assert(views(ids@) == today_id_candidates(store.tasks_by_uuid@, items@));
        }
        TodayList { items, id_prefix_len }
    }
}

impl AnytimeArgs {
    /// What the Anytime view lists on the day `today`: the store's Anytime
    /// list, by position.
    pub fn select<'a>(&self, store: &'a ThingsStore, today: i64) -> (r: Vec<&'a Task>)
        requires
            store.wf(),
        ensures
            shows(store.tasks_by_uuid@, |t: Task| in_anytime(store.tasks_by_uuid@, t, today), r@),
            ranked(|t: Task| index_rank(t), r@),
            forall|a: int| 0 <= a < r@.len() ==> {
                let t = *#[trigger] r@[a];
                let tasks = store.tasks_by_uuid@;
                &&& t.status == TaskStatus::Incomplete
                &&& !t.trashed
                &&& t.start == TaskStart::Anytime
                &&& (t.start_date matches Some(d) ==> d <= today)
                &&& (eff_project(tasks, t) matches Some(p) ==> tasks.contains_key(p) ==> {
                    &&& tasks[p].status == TaskStatus::Incomplete
                    &&& !tasks[p].trashed
                    &&& tasks[p].start != TaskStart::Someday
                    &&& (tasks[p].start_date matches Some(d) ==> d <= today)
                })
            },
    {
        store.anytime_at(today)
    }
}

} // verus!
