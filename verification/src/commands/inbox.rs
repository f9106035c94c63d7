//! `inbox` and `someday`: the task lists with their id columns.

use vstd::prelude::*;
use crate::commands::{CommandPlan, DetailedArgs};
use crate::commands::areas::lemma_width_same;
use crate::common::{BOLD, BLUE, CYAN, DIM, colored, colored_text, dim, icons};
use crate::listing::{task_line, task_note_lines, project_note_lines, fmt_task_line, fmt_task_with_note, fmt_project_with_note};
use crate::lookup::{deref_all, width_needed};
use crate::query::{shows, ranked, in_inbox, in_someday_list, index_rank};
use crate::store::Task;
use crate::text::{concat, decimal, decimal_string, join_sep, views};
use crate::things::ThingsStore;
use crate::wire::TaskType;

verus! {

/// The arguments of `inbox`.
pub struct InboxArgs {
    pub detailed: DetailedArgs,
}

/// The arguments of `someday`.
pub struct SomedayArgs {
    pub detailed: DetailedArgs,
}

/// The id column width of a listing: what the ids' short forms need, or
/// none for an empty listing.
pub open spec fn column_width(store: ThingsStore, r: Seq<&Task>) -> nat {
    (if r.len() == 0 { 0 } else { width_needed(store.short_ids@, r.map_values(|t: &Task| t.uuid)) }) as nat
}

/// A task's entry in a list: its line and, when detailed, its notes and checklist.
pub open spec fn task_entry(store: ThingsStore, t: Task, markers: bool, width: nat, detailed: bool, today: i64, no_color: bool) -> Seq<char> {
    join_sep(
        task_note_lines(task_line(store, t, false, markers, Some(width as usize), today, no_color), t, "  "@, Some(width as usize), detailed, no_color),
        "\n"@,
    )
}

/// What `inbox` prints for the listed tasks `ts`.
pub open spec fn inbox_lines(store: ThingsStore, ts: Seq<&Task>, width: nat, detailed: bool, today: i64, no_color: bool) -> Seq<Seq<char>> {
    if ts.len() == 0 {
        seq![colored_text("Inbox is empty."@, seq![DIM], no_color)]
    } else {
        seq![colored_text("⬓"@ + " Inbox  ("@ + decimal(ts.len()) + " tasks)"@, seq![BOLD, BLUE], no_color), seq![]]
            + ts.map_values(|t: &Task| task_entry(store, *t, true, width, detailed, today, no_color))
    }
}

/// What `inbox` does on the day `today`: it lists the inbox.
pub open spec fn inbox_outcome(p: CommandPlan, store: ThingsStore, args: InboxArgs, today: i64, no_color: bool) -> bool {
    &&& p.notes@.len() == 0
    &&& p.changes is None
    &&& exists|r: Seq<&Task>|
        shows(store.tasks_by_uuid@, |t: Task| in_inbox(store.tasks_by_uuid@, t), r) && ranked(|t: Task| index_rank(t), r)
        && #[trigger] views(p.done_lines@) == inbox_lines(store, r, column_width(store, r), args.detailed.detailed, today, no_color)
}

fn uuids_of(ts: &Vec<&Task>) -> (r: Vec<String>)
    ensures
        r@.len() == ts@.len(),
        forall|k: int| 0 <= k < ts@.len() ==> (#[trigger] r@[k])@ == ts@[k].uuid@,
{
    let mut ids: Vec<String> = Vec::new();
    let mut i: usize = 0;
    while i < ts.len()
        invariant
            i <= ts@.len(),
            ids@.len() == i,
            forall|k: int| 0 <= k < i ==> (#[trigger] ids@[k])@ == ts@[k].uuid@,
        decreases ts@.len() - i,
    {
        ids.push(ts[i].uuid.clone());
        i += 1;
    }
    ids
}

fn width_of(store: &ThingsStore, ts: &Vec<&Task>) -> (r: usize)
    requires
        store.wf(),
    ensures
        r as nat == column_width(*store, ts@),
{
    let ids = uuids_of(ts);
    let w = store.unique_prefix_length(&ids);
    proof {
        if ts@.len() > 0 {
            lemma_width_same(store.short_ids@, ids@, ts@.map_values(|t: &Task| t.uuid));
        }
    }
    w
}

impl InboxArgs {
    /// What `inbox` does on the day `today`.
    pub fn plan(&self, store: &ThingsStore, today: i64, no_color: bool) -> (p: CommandPlan)
        requires
            store.wf(),
        ensures
            inbox_outcome(p, *store, *self, today, no_color),
    {
        let ts = store.inbox();
        let mut out: Vec<String> = Vec::new();
        if ts.len() == 0 {
            out.push(dim("Inbox is empty.", no_color));
            proof {
                assert(views(out@) =~= inbox_lines(*store, ts@, column_width(*store, ts@), self.detailed.detailed, today, no_color));
            }
            return CommandPlan { notes: Vec::new(), changes: None, done_lines: out, fail_prefix: String::new() };
        }
        let header = concat(concat(concat(icons().inbox, " Inbox  (").as_str(), decimal_string(ts.len() as u64).as_str()).as_str(), " tasks)");
        let codes = [BOLD, BLUE];
        out.push(colored(header.as_str(), &codes, no_color));
        out.push(String::new());
        let width = width_of(store, &ts);
        let ghost head = views(out@);
        let ghost f = |t: &Task| task_entry(*store, *t, true, width as nat, self.detailed.detailed, today, no_color);
        let mut i: usize = 0;
        while i < ts.len()
            invariant
                store.wf(),
                i <= ts@.len(),
                f == (|t: &Task| task_entry(*store, *t, true, width as nat, self.detailed.detailed, today, no_color)),
                views(out@) == head + ts@.take(i as int).map_values(f),
            decreases ts@.len() - i,
        {
            let t = ts[i];
            let line = fmt_task_line(t, store, false, true, Some(width), today, no_color);
            let entry = fmt_task_with_note(line, t, "  ", Some(width), self.detailed.detailed, no_color);
            let ghost before = views(out@);
            out.push(entry);
            proof {
                assert(entry@ == f(ts@[i as int]));
                assert(ts@.take(i + 1) =~= ts@.take(i as int).push(ts@[i as int]));
                assert(ts@.take(i + 1).map_values(f) =~= ts@.take(i as int).map_values(f).push(f(ts@[i as int])));
                assert(views(out@) =~= before.push(entry@));
            }
            i += 1;
        }
        proof {
            assert(ts@.take(ts@.len() as int) =~= ts@);
            assert(codes@ =~= seq![BOLD, BLUE]);
            assert(views(out@) =~= inbox_lines(*store, ts@, column_width(*store, ts@), self.detailed.detailed, today, no_color));
        }
        CommandPlan { notes: Vec::new(), changes: None, done_lines: out, fail_prefix: String::new() }
    }
}

/// The projects of a list, in order.
pub open spec fn projects_in(ts: Seq<&Task>) -> Seq<&Task>
    decreases ts.len(),
{
    if ts.len() == 0 {
        seq![]
    } else if (*ts.last()).item_type == TaskType::Project {
        projects_in(ts.drop_last()).push(ts.last())
    } else {
        projects_in(ts.drop_last())
    }
}

/// The entries of a list that are not projects, in order.
pub open spec fn non_projects_in(ts: Seq<&Task>) -> Seq<&Task>
    decreases ts.len(),
{
    if ts.len() == 0 {
        seq![]
    } else if (*ts.last()).item_type != TaskType::Project {
        non_projects_in(ts.drop_last()).push(ts.last())
    } else {
        non_projects_in(ts.drop_last())
    }
}

/// What `someday` prints for the listed items `ts`: the projects, then
/// (apart by a blank line when both are there) the tasks.
pub open spec fn someday_lines(store: ThingsStore, ts: Seq<&Task>, width: nat, detailed: bool, today: i64, no_color: bool) -> Seq<Seq<char>> {
    if ts.len() == 0 {
        seq![colored_text("Someday is empty."@, seq![DIM], no_color)]
    } else {
        let ps = projects_in(ts);
        let others = non_projects_in(ts);
        seq![colored_text("⬚"@ + " Someday  ("@ + decimal(ts.len()) + " items)"@, seq![BOLD, CYAN], no_color), seq![]]
            + ps.map_values(|t: &Task| join_sep(project_note_lines(store, *t, "  "@, Some(width as usize), true, detailed, today, no_color), "\n"@))
            + (if others.len() > 0 && ps.len() > 0 { seq![seq![]] } else { seq![] })
            + others.map_values(|t: &Task| task_entry(store, *t, false, width, detailed, today, no_color))
    }
}

/// What `someday` does on the day `today`: it lists Someday.
pub open spec fn someday_outcome(p: CommandPlan, store: ThingsStore, args: SomedayArgs, today: i64, no_color: bool) -> bool {
    &&& p.notes@.len() == 0
    &&& p.changes is None
    &&& exists|r: Seq<&Task>|
        shows(store.tasks_by_uuid@, |t: Task| in_someday_list(store.tasks_by_uuid@, t), r) && ranked(|t: Task| index_rank(t), r)
        && #[trigger] views(p.done_lines@) == someday_lines(store, r, column_width(store, r), args.detailed.detailed, today, no_color)
}

fn split_projects<'a>(ts: &Vec<&'a Task>) -> (r: (Vec<&'a Task>, Vec<&'a Task>))
    ensures
        r.0@ == projects_in(ts@),
        r.1@ == non_projects_in(ts@),
{
    let mut ps: Vec<&Task> = Vec::new();
    let mut others: Vec<&Task> = Vec::new();
    let mut i: usize = 0;
    proof {
        assert(ts@.take(0) =~= seq![]);
    }
    while i < ts.len()
        invariant
            i <= ts@.len(),
            ps@ == projects_in(ts@.take(i as int)),
            others@ == non_projects_in(ts@.take(i as int)),
        decreases ts@.len() - i,
    {
        proof {
            assert(ts@.take(i + 1).drop_last() =~= ts@.take(i as int));
            assert(ts@.take(i + 1).last() == ts@[i as int]);
        }
        if ts[i].is_project() {
            ps.push(ts[i]);
        } else {
            others.push(ts[i]);
        }
        i += 1;
    }
    proof {
        assert(ts@.take(ts@.len() as int) =~= ts@);
    }
    (ps, others)
}

impl SomedayArgs {
    /// What `someday` does on the day `today`.
    #[verifier::rlimit(30)]
    pub fn plan(&self, store: &ThingsStore, today: i64, no_color: bool) -> (p: CommandPlan)
        requires
            store.wf(),
        ensures
            someday_outcome(p, *store, *self, today, no_color),
    {
        let ts = store.someday();
        let detailed = self.detailed.detailed;
        let mut out: Vec<String> = Vec::new();
        if ts.len() == 0 {
            out.push(dim("Someday is empty.", no_color));
            proof {
                assert(views(out@) =~= someday_lines(*store, ts@, column_width(*store, ts@), detailed, today, no_color));
            }
            return CommandPlan { notes: Vec::new(), changes: None, done_lines: out, fail_prefix: String::new() };
        }
        let header = concat(concat(concat(icons().task_someday, " Someday  (").as_str(), decimal_string(ts.len() as u64).as_str()).as_str(), " items)");
        let codes = [BOLD, CYAN];
        out.push(colored(header.as_str(), &codes, no_color));
        out.push(String::new());
        let width = width_of(store, &ts);
        let (ps, others) = split_projects(&ts);
        let ghost head = views(out@);
        let ghost fp = |t: &Task| join_sep(project_note_lines(*store, *t, "  "@, Some(width), true, detailed, today, no_color), "\n"@);
        let mut i: usize = 0;
        while i < ps.len()
            invariant
                store.wf(),
                i <= ps@.len(),
                fp == (|t: &Task| join_sep(project_note_lines(*store, *t, "  "@, Some(width), true, detailed, today, no_color), "\n"@)),
                views(out@) == head + ps@.take(i as int).map_values(fp),
            decreases ps@.len() - i,
        {
            let t = ps[i];
            let entry = fmt_project_with_note(t, store, "  ", Some(width), true, detailed, today, no_color);
            let ghost before = views(out@);
            out.push(entry);
            proof {
                assert(ps@.take(i + 1) =~= ps@.take(i as int).push(ps@[i as int]));
                assert(ps@.take(i + 1).map_values(fp) =~= ps@.take(i as int).map_values(fp).push(fp(ps@[i as int])));
                assert(views(out@) =~= before.push(entry@));
            }
            i += 1;
        }
        proof {
            assert(ps@.take(ps@.len() as int) =~= ps@);
        }
        let ghost mid = views(out@);
        if others.len() > 0 && ps.len() > 0 {
            out.push(String::new());
        }
        let ghost mid2 = views(out@);
        proof {
            assert(mid2 =~= mid + (if others@.len() > 0 && ps@.len() > 0 { seq![seq![]] } else { seq![] }));
        }
        let ghost ft = |t: &Task| task_entry(*store, *t, false, width as nat, detailed, today, no_color);
        let mut j: usize = 0;
        while j < others.len()
            invariant
                store.wf(),
                j <= others@.len(),
                ft == (|t: &Task| task_entry(*store, *t, false, width as nat, detailed, today, no_color)),
                views(out@) == mid2 + others@.take(j as int).map_values(ft),
            decreases others@.len() - j,
        {
            let t = others[j];
            let line = fmt_task_line(t, store, false, false, Some(width), today, no_color);
            let entry = fmt_task_with_note(line, t, "  ", Some(width), detailed, no_color);
            let ghost before = views(out@);
            out.push(entry);
            proof {
                assert(entry@ == ft(others@[j as int]));
                assert(others@.take(j + 1) =~= others@.take(j as int).push(others@[j as int]));
                assert(others@.take(j + 1).map_values(ft) =~= others@.take(j as int).map_values(ft).push(ft(others@[j as int])));
                assert(views(out@) =~= before.push(entry@));
            }
            j += 1;
        }
        proof {
            assert(others@.take(others@.len() as int) =~= others@);
            assert(codes@ =~= seq![BOLD, CYAN]);
            assert(views(out@) =~= someday_lines(*store, ts@, column_width(*store, ts@), detailed, today, no_color));
        }
        CommandPlan { notes: Vec::new(), changes: None, done_lines: out, fail_prefix: String::new() }
    }
}

} // verus!
