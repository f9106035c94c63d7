//! The command line's commands, and what each decides.

use vstd::prelude::*;
use crate::commands::{CommandPlan, DetailedArgs};
use crate::commands::areas::{AreasArgs, AreasSubcommand, area_list_outcome, area_new_outcome, area_edit_outcome};
use crate::commands::delete::{DeleteArgs, delete_plan};
use crate::commands::edit::{EditArgs, edit_outcome};
use crate::commands::inbox::{InboxArgs, SomedayArgs, inbox_outcome, someday_outcome};
use crate::commands::mark::{MarkArgs, checklist_flag, checklist_plan, status_plan};
use crate::commands::new::{NewArgs, new_outcome, when_is_day, day_result_ok};
use crate::commands::projects::{
    ProjectsArgs, ProjectsSubcommand, project_list_outcome, project_when_ok, project_new_outcome, project_edit_outcome,
};
use crate::commands::reorder::{ReorderArgs, ReorderPlan, reorder_outcome};
use crate::commands::schedule::{ScheduleArgs, schedule_outcome, when_day_ok};
use crate::commands::tags::{TagsArgs, TagsSubcommand, tag_list_outcome, tag_new_outcome, tag_edit_outcome, tag_delete_outcome};
use crate::props::opt_view;
use crate::text::trimmed;
use crate::things::ThingsStore;

verus! {

/// The arguments of `set-auth`: none; it asks for the credentials.
pub struct SetAuthArgs {}

/// The arguments of `today`.
pub struct TodayArgs {
    pub detailed: DetailedArgs,
}

/// The arguments of `anytime`.
pub struct AnytimeArgs {
    pub detailed: DetailedArgs,
}

/// What a command decided: a plan with one commit at most, a plan of
/// commits in turn, or asking the user for the credentials.
pub enum Decision {
    Plan(CommandPlan),
    Steps(ReorderPlan),
    AskAuth,
}

/// A command of the command line.
pub trait Command {
    /// What the command decides with the store as it is, at `now_ms` on the day `today`.
    fn decide(&self, store: &ThingsStore, now_ms: i64, today: i64, no_color: bool) -> (d: Decision)
        requires
            store.wf(),
    ;
}

/// The commands.
pub enum Commands {
    Inbox(InboxArgs),
    Someday(SomedayArgs),
    Projects(ProjectsArgs),
    Areas(AreasArgs),
    Tags(TagsArgs),
    New(NewArgs),
    Edit(EditArgs),
    Mark(MarkArgs),
    Schedule(ScheduleArgs),
    Reorder(ReorderArgs),
    Delete(DeleteArgs),
    SetAuth(SetAuthArgs),
}

/// What each command decides, at `now_ms` on the day `today`.
pub open spec fn decided(d: Decision, c: Commands, store: ThingsStore, now_ms: i64, today: i64, no_color: bool) -> bool {
    match c {
        Commands::Inbox(a) => d matches Decision::Plan(p) && inbox_outcome(p, store, a, today, no_color),
        Commands::Someday(a) => d matches Decision::Plan(p) && someday_outcome(p, store, a, today, no_color),
        Commands::Projects(a) => d matches Decision::Plan(p) && match a.command {
            None => project_list_outcome(p, store, a.detailed, today, no_color),
            Some(ProjectsSubcommand::List(l)) => project_list_outcome(p, store, a.detailed || l.detailed, today, no_color),
            Some(ProjectsSubcommand::New(n)) => exists|wp: Result<i64, Seq<char>>, dp: Result<i64, Seq<char>>, u: Seq<char>|
                project_when_ok(n.when, wp)
                && (n.deadline_date matches Some(x) ==> day_result_ok(x@, "--deadline"@, dp))
                && crate::ids::id_shaped(u)
                && project_new_outcome(p, store, n, now_ms, today, u, wp, dp, no_color),
            Some(ProjectsSubcommand::Edit(e)) => project_edit_outcome(p, store, e, now_ms, no_color),
        },
        Commands::Areas(a) => d matches Decision::Plan(p) && match a.command {
            None => area_list_outcome(p, store, no_color),
            Some(AreasSubcommand::List(_)) => area_list_outcome(p, store, no_color),
            Some(AreasSubcommand::New(n)) => exists|u: Seq<char>| crate::ids::id_shaped(u) && area_new_outcome(p, store.tags_by_uuid@, n, now_ms, u, no_color),
            Some(AreasSubcommand::Edit(e)) => area_edit_outcome(p, store, e, now_ms, no_color),
        },
        Commands::Tags(a) => d matches Decision::Plan(p) && match a.command {
            None => tag_list_outcome(p, store, no_color),
            Some(TagsSubcommand::List(_)) => tag_list_outcome(p, store, no_color),
            Some(TagsSubcommand::New(n)) => exists|u: Seq<char>| crate::ids::id_shaped(u) && tag_new_outcome(p, store.tags_by_uuid@, n, u, no_color),
            Some(TagsSubcommand::Edit(e)) => tag_edit_outcome(p, store.tags_by_uuid@, e, now_ms, no_color),
            Some(TagsSubcommand::Delete(x)) => tag_delete_outcome(p, store.tags_by_uuid@, x, no_color),
        },
        Commands::New(a) => d matches Decision::Plan(p) && exists|wp: Result<i64, Seq<char>>, dp: Result<i64, Seq<char>>, u: Seq<char>|
            (when_is_day(opt_view(a.when)) ==> day_result_ok(trimmed(a.when.unwrap()@), "--when"@, wp))
            && (a.deadline_date matches Some(x) ==> day_result_ok(x@, "--deadline"@, dp))
            && crate::ids::id_shaped(u)
            && new_outcome(p, store, a, now_ms, today, u, wp, dp, no_color),
        Commands::Edit(a) => d matches Decision::Plan(p) && exists|ids: Seq<Seq<char>>|
            ids.len() == a.add_checklist@.len()
            && (forall|k: int| 0 <= k < ids.len() ==> crate::ids::id_shaped(#[trigger] ids[k]))
            && edit_outcome(p, store, a, now_ms, ids, no_color),
        Commands::Mark(a) => d matches Decision::Plan(p) && match checklist_flag(a) {
            Some(raw) => checklist_plan(p, store.tasks_by_uuid@, store.markable_ids_sorted@, a, raw, now_ms, no_color),
            None => status_plan(p, store.tasks_by_uuid@, store.markable_ids_sorted@, a, now_ms, no_color),
        },
        Commands::Schedule(a) => d matches Decision::Plan(p) && exists|wp: Result<i64, Seq<char>>, dp: Result<i64, Seq<char>>|
            when_day_ok(a.when, wp)
            && (a.deadline_date matches Some(x) ==> day_result_ok(x@, "--deadline"@, dp))
            && schedule_outcome(p, store.tasks_by_uuid@, store.markable_ids_sorted@, a, now_ms, today, wp, dp, no_color),
        Commands::Reorder(a) => d matches Decision::Steps(p) && reorder_outcome(p, store, a, now_ms, today, no_color),
        Commands::Delete(a) => d matches Decision::Plan(p) && delete_plan(
            p,
            store.tasks_by_uuid@,
            store.task_ids_sorted@,
            store.areas_by_uuid@,
            store.area_ids_sorted@,
            a,
            no_color,
        ),
        Commands::SetAuth(_) => d is AskAuth,
    }
}

impl Command for Commands {
    fn decide(&self, store: &ThingsStore, now_ms: i64, today: i64, no_color: bool) -> (d: Decision)
        ensures
            decided(d, *self, *store, now_ms, today, no_color),
    {
        match self {
            Commands::Inbox(a) => Decision::Plan(a.plan(store, today, no_color)),
            Commands::Someday(a) => Decision::Plan(a.plan(store, today, no_color)),
            Commands::Projects(a) => Decision::Plan(a.plan(store, now_ms, today, no_color)),
            Commands::Areas(a) => Decision::Plan(a.plan(store, now_ms, no_color)),
            Commands::Tags(a) => Decision::Plan(a.plan(store, now_ms, no_color)),
            Commands::New(a) => Decision::Plan(a.plan(store, now_ms, today, no_color)),
            Commands::Edit(a) => Decision::Plan(a.plan(store, now_ms, no_color)),
            Commands::Mark(a) => Decision::Plan(a.plan(store, now_ms, no_color)),
            Commands::Schedule(a) => Decision::Plan(a.plan(store, now_ms, today, no_color)),
            Commands::Reorder(a) => Decision::Steps(a.plan(store, now_ms, today, no_color)),
            Commands::Delete(a) => Decision::Plan(a.plan(store, no_color)),
            Commands::SetAuth(_) => Decision::AskAuth,
        }
    }
}

} // verus!
