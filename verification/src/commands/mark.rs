//! `mark`: set tasks done, open or canceled, or check checklist items.

use vstd::prelude::*;
use crate::commands::{CommandPlan, object_is, reports_only, report_one, props_from, props_of};
use crate::common::{colored_text, paint, dim, GREEN, DIM};
use crate::json::{JsonValue, int_value};
use crate::keymap::KeyMap;
use crate::lookup::{resolved, deref_opt, deref_all};
use crate::store::{Task, ChecklistItem};
use crate::text::{
    comma_tokens, comma_separated, views, concat, owned, same_text, starts_with, decimal, decimal_string,
    signed_decimal, signed_decimal_string,
};
use crate::things::ThingsStore;
use crate::wire::{EntityType, OperationType, TaskStatus, TaskType, RecurrenceType, WireObject, entity_of, task_status_code};

verus! {

/// The arguments of `mark`.
pub struct MarkArgs {
    pub task_ids: Vec<String>,
    pub done: bool,
    pub incomplete: bool,
    pub canceled: bool,
    pub check_ids: Option<String>,
    pub uncheck_ids: Option<String>,
    pub check_cancel_ids: Option<String>,
}

/// The items of a checklist whose id starts with `token`, in order.
pub open spec fn with_prefix(items: Seq<ChecklistItem>, token: Seq<char>) -> Seq<ChecklistItem>
    decreases items.len(),
{
    if items.len() == 0 {
        seq![]
    } else {
        let r = with_prefix(items.drop_last(), token);
        if token.is_prefix_of(items.last().uuid@) {
            r.push(items.last())
        } else {
            r
        }
    }
}

/// Some item of `acc` has the id `u`.
pub open spec fn has_uuid(acc: Seq<ChecklistItem>, u: Seq<char>) -> bool {
    exists|a: int| 0 <= a < acc.len() && (#[trigger] acc[a]).uuid@ == u
}

/// The items the tokens pick, each once, in the order first picked; or the
/// message for the first token that picks none or several.
pub open spec fn pick_items(items: Seq<ChecklistItem>, tokens: Seq<Seq<char>>) -> Result<Seq<ChecklistItem>, Seq<char>>
    decreases tokens.len(),
{
    if tokens.len() == 0 {
        Ok(seq![])
    } else {
        match pick_items(items, tokens.drop_last()) {
            Err(m) => Err(m),
            Ok(acc) => {
                let t = tokens.last();
                let hits = with_prefix(items, t);
                if hits.len() == 0 {
                    Err("Checklist item not found: '"@ + t + "'"@)
                } else if hits.len() > 1 {
                    Err("Ambiguous checklist item prefix: '"@ + t + "'"@)
                } else if has_uuid(acc, hits[0].uuid@) {
                    Ok(acc)
                } else {
                    Ok(acc.push(hits[0]))
                }
            },
        }
    }
}

/// The checklist items a comma-separated list of id prefixes names.
pub open spec fn checklist_selection(items: Seq<ChecklistItem>, raw: Seq<char>) -> Result<Seq<ChecklistItem>, Seq<char>> {
    let toks = comma_tokens(raw);
    if toks.len() == 0 {
        Err("No checklist item IDs provided."@)
    } else {
        pick_items(items, toks)
    }
}

/// The first item whose id starts with `token`, and how many there are.
pub(crate) fn scan_prefix(items: &Vec<ChecklistItem>, token: &str) -> (r: (Option<usize>, usize))
    ensures
        r.1 == with_prefix(items@, token@).len(),
        r.1 > 0 ==> (r.0 matches Some(i) && i < items@.len() && items@[i as int] == with_prefix(items@, token@)[0]),
{
    let mut first: Option<usize> = None;
    let mut count: usize = 0;
    let mut j: usize = 0;
    while j < items.len()
        invariant
            j <= items@.len(),
            count <= j,
            count == with_prefix(items@.take(j as int), token@).len(),
            count > 0 ==> (first matches Some(i) && i < j && items@[i as int] == with_prefix(items@.take(j as int), token@)[0]),
        decreases items@.len() - j,
    {
        let ghost before = with_prefix(items@.take(j as int), token@);
        proof {
            assert(items@.take(j + 1).drop_last() =~= items@.take(j as int));
            assert(items@.take(j + 1).last() == items@[j as int]);
        }
        if starts_with(items[j].uuid.as_str(), token) {
            if count == 0 {
                first = Some(j);
            }
            count += 1;
            proof {
                assert(with_prefix(items@.take(j + 1), token@) == before.push(items@[j as int]));
            }
        }
        j += 1;
    }
    proof {
        assert(items@.take(items@.len() as int) =~= items@);
    }
    (first, count)
}

fn has_item(acc: &Vec<ChecklistItem>, u: &str) -> (r: bool)
    ensures
        r == has_uuid(acc@, u@),
{
    let mut a: usize = 0;
    while a < acc.len()
        invariant
            a <= acc@.len(),
            forall|k: int| 0 <= k < a ==> (#[trigger] acc@[k]).uuid@ != u@,
        decreases acc@.len() - a,
    {
        if same_text(acc[a].uuid.as_str(), u) {
            return true;
        }
        a += 1;
    }
    false
}

proof fn lemma_pick_err(items: Seq<ChecklistItem>, s: Seq<Seq<char>>, i: int, m: Seq<char>)
    requires
        0 <= i <= s.len(),
        pick_items(items, s.take(i)) == Err::<Seq<ChecklistItem>, Seq<char>>(m),
    ensures
        pick_items(items, s) == Err::<Seq<ChecklistItem>, Seq<char>>(m),
    decreases s.len() - i,
{
    if i < s.len() {
        assert(s.take(i + 1).drop_last() =~= s.take(i));
        lemma_pick_err(items, s, i + 1, m);
    } else {
        assert(s.take(i) =~= s);
    }
}

/// The checklist items of `task` a comma-separated list of id prefixes names
/// (`resolve_checklist_items`), or the message why it names none.
pub fn resolve_checklist_items(task: &Task, raw_ids: &str) -> (r: (Vec<ChecklistItem>, String))
    ensures
        match checklist_selection(task.checklist_items@, raw_ids@) {
            Ok(sel) => r.0@ == sel && r.1@.len() == 0,
            Err(m) => r.0@.len() == 0 && r.1@ == m,
        },
{
    let tokens = comma_separated(raw_ids);
    let ghost ts = views(tokens@);
    if tokens.len() == 0 {
        return (Vec::new(), owned("No checklist item IDs provided."));
    }
    let items = &task.checklist_items;
    let mut picked: Vec<ChecklistItem> = Vec::new();
    let mut i: usize = 0;
    proof {
        assert(ts.take(0).len() == 0);
        assert(picked@ =~= Seq::<ChecklistItem>::empty());
    }
    while i < tokens.len()
        invariant
            ts == views(tokens@),
            ts == comma_tokens(raw_ids@),
            ts.len() > 0,
            items == &task.checklist_items,
            i <= tokens@.len(),
            pick_items(items@, ts.take(i as int)) == Ok::<Seq<ChecklistItem>, Seq<char>>(picked@),
        decreases tokens@.len() - i,
    {
        proof {
            assert(ts.take(i + 1).drop_last() =~= ts.take(i as int));
            assert(ts.take(i + 1).last() == tokens@[i as int]@);
        }
        let token = tokens[i].as_str();
        let (first, count) = scan_prefix(items, token);
        if count == 0 {
            let m = concat(concat("Checklist item not found: '", token).as_str(), "'");
            proof {
                lemma_pick_err(items@, ts, i + 1, m@);
            }
            return (Vec::new(), m);
        }
        if count > 1 {
            let m = concat(concat("Ambiguous checklist item prefix: '", token).as_str(), "'");
            proof {
                lemma_pick_err(items@, ts, i + 1, m@);
            }
            return (Vec::new(), m);
        }
        let k = match first {
            Some(k) => k,
            None => 0,
        };
        let item = items[k].duplicate();
        if !has_item(&picked, item.uuid.as_str()) {
            picked.push(item);
        }
        i += 1;
    }
    proof {
        assert(ts.take(tokens@.len() as int) =~= ts);
    }
    (picked, String::new())
}

/// A recurring task that may be marked done: an instance of one template
/// that repeats on a fixed schedule.
pub open spec fn recurring_ok(tasks: Map<Seq<char>, Task>, t: Task) -> bool {
    &&& t.recurrence_rule is None
    &&& t.recurrence_templates@.len() == 1
    &&& tasks.contains_key(t.recurrence_templates@[0]@)
    &&& tasks[t.recurrence_templates@[0]@].recurrence_rule matches Some(rr) && rr.repeat_type == RecurrenceType::FixedSchedule
}

/// Why a recurring task cannot be marked done (empty when it can).
pub open spec fn recurring_block(tasks: Map<Seq<char>, Task>, t: Task) -> Seq<char> {
    if t.recurrence_rule is Some && t.recurrence_templates@.len() == 0 {
        "Recurring template tasks are blocked for done (template progression bookkeeping is not implemented)."@
    } else if !(t.recurrence_rule is None && t.recurrence_templates@.len() > 0) {
        "Recurring task shape is unsupported (expected an instance with rt set and rr unset)."@
    } else if t.recurrence_templates@.len() != 1 {
        "Recurring instance has "@ + decimal(t.recurrence_templates@.len()) + " template references; expected exactly 1."@
    } else if !tasks.contains_key(t.recurrence_templates@[0]@) {
        "Recurring instance template "@ + t.recurrence_templates@[0]@ + " is missing from current state."@
    } else {
        match tasks[t.recurrence_templates@[0]@].recurrence_rule {
            None => "Recurring instance template has unsupported recurrence rule shape (expected dict)."@,
            Some(rr) => match rr.repeat_type {
                RecurrenceType::FixedSchedule => seq![],
                RecurrenceType::AfterCompletion => "Recurring 'after completion' templates (rr.tp=1) are blocked: completion requires coupled template writes (acrd/tir) not implemented yet."@,
                RecurrenceType::Unknown(v) => "Recurring template type rr.tp="@ + signed_decimal(v as int) + " is unsupported for safe completion."@,
            },
        }
    }
}

/// Whether a recurring task may be marked done, and why not (`validate_recurring_done`).
pub fn validate_recurring_done(task: &Task, store: &ThingsStore) -> (r: (bool, String))
    requires
        store.wf(),
    ensures
        r.0 == recurring_ok(store.tasks_by_uuid@, *task),
        r.1@ == recurring_block(store.tasks_by_uuid@, *task),
{
    if task.is_recurrence_template() {
        return (false, owned("Recurring template tasks are blocked for done (template progression bookkeeping is not implemented)."));
    }
    if !task.is_recurrence_instance() {
        return (false, owned("Recurring task shape is unsupported (expected an instance with rt set and rr unset)."));
    }
    if task.recurrence_templates.len() != 1 {
        let n = decimal_string(task.recurrence_templates.len() as u64);
        return (false, concat(concat("Recurring instance has ", n.as_str()).as_str(), " template references; expected exactly 1."));
    }
    let template_uuid = &task.recurrence_templates[0];
    let template = match store.get_task(template_uuid.as_str()) {
        Some(t) => t,
        None => {
            return (false, concat(concat("Recurring instance template ", template_uuid.as_str()).as_str(), " is missing from current state."));
        },
    };
    match &template.recurrence_rule {
        None => (false, owned("Recurring instance template has unsupported recurrence rule shape (expected dict).")),
        Some(rr) => match rr.repeat_type {
            RecurrenceType::FixedSchedule => {
                proof {
                    assert(recurring_block(store.tasks_by_uuid@, *task) =~= Seq::<char>::empty());
                }
                (true, String::new())
            },
            RecurrenceType::AfterCompletion => (false, owned("Recurring 'after completion' templates (rr.tp=1) are blocked: completion requires coupled template writes (acrd/tir) not implemented yet.")),
            RecurrenceType::Unknown(v) => {
                let t = signed_decimal_string(v as i64);
                (false, concat(concat("Recurring template type rr.tp=", t.as_str()).as_str(), " is unsupported for safe completion."))
            },
        },
    }
}

/// Why a task cannot take the action (`done`, `incomplete` or `canceled`);
/// empty when it can.
pub open spec fn mark_block(tasks: Map<Seq<char>, Task>, t: Task, action: Seq<char>) -> Seq<char> {
    if t.entity@ != "Task6"@ {
        "Only Task6 tasks are supported by mark right now."@
    } else if t.item_type == TaskType::Heading {
        "Headings cannot be marked."@
    } else if t.trashed {
        "Task is in Trash and cannot be completed."@
    } else if action == "done"@ && t.status == TaskStatus::Completed {
        "Task is already completed."@
    } else if action == "incomplete"@ && t.status == TaskStatus::Incomplete {
        "Task is already incomplete/open."@
    } else if action == "canceled"@ && t.status == TaskStatus::Canceled {
        "Task is already canceled."@
    } else if action == "done"@ && ((t.recurrence_rule is None && t.recurrence_templates@.len() > 0) || (
    t.recurrence_rule is Some && t.recurrence_templates@.len() == 0)) {
        recurring_block(tasks, t)
    } else {
        seq![]
    }
}

/// Why a task cannot take the action; empty when it can (`validate_mark_target`).
pub fn validate_mark_target(task: &Task, action: &str, store: &ThingsStore) -> (r: String)
    requires
        store.wf(),
    ensures
        r@ == mark_block(store.tasks_by_uuid@, *task, action@),
{
    if !same_text(task.entity.as_str(), "Task6") {
        return owned("Only Task6 tasks are supported by mark right now.");
    }
    if task.is_heading() {
        return owned("Headings cannot be marked.");
    }
    if task.trashed {
        return owned("Task is in Trash and cannot be completed.");
    }
    let done = same_text(action, "done");
    if done && task.status == TaskStatus::Completed {
        return owned("Task is already completed.");
    }
    if same_text(action, "incomplete") && task.status == TaskStatus::Incomplete {
        return owned("Task is already incomplete/open.");
    }
    if same_text(action, "canceled") && task.status == TaskStatus::Canceled {
        return owned("Task is already canceled.");
    }
    if done && (task.is_recurrence_instance() || task.is_recurrence_template()) {
        let (ok, reason) = validate_recurring_done(task, store);
        if !ok {
            return reason;
        }
        return String::new();
    }
    String::new()
}

/// The checklist ids given with `--check`, `--uncheck` or `--check-cancel`, in that precedence.
pub open spec fn checklist_flag(args: MarkArgs) -> Option<Seq<char>> {
    match args.check_ids {
        Some(x) => Some(x@),
        None => match args.uncheck_ids {
            Some(x) => Some(x@),
            None => match args.check_cancel_ids {
                Some(x) => Some(x@),
                None => None,
            },
        },
    }
}

/// The status code checklist items get: checked 3, unchecked 0, canceled 2.
pub open spec fn checklist_status(args: MarkArgs) -> i64 {
    if args.check_ids is Some {
        3
    } else if args.uncheck_ids is Some {
        0
    } else {
        2
    }
}

/// The word printed for checked, unchecked or canceled checklist items.
pub open spec fn checklist_word(args: MarkArgs) -> Seq<char> {
    if args.check_ids is Some {
        "● Checked"@
    } else if args.uncheck_ids is Some {
        "○ Unchecked"@
    } else {
        "× Canceled"@
    }
}

/// The action of a task mark: `done`, `incomplete`, else `canceled`.
pub open spec fn mark_action(args: MarkArgs) -> Seq<char> {
    if args.done {
        "done"@
    } else if args.incomplete {
        "incomplete"@
    } else {
        "canceled"@
    }
}

/// The status code of an action.
pub open spec fn action_status(action: Seq<char>) -> i64 {
    if action == "done"@ {
        3
    } else if action == "incomplete"@ {
        0
    } else {
        2
    }
}

/// The word printed for marked tasks.
pub open spec fn action_word(action: Seq<char>) -> Seq<char> {
    if action == "done"@ {
        "✓ Done"@
    } else if action == "incomplete"@ {
        "↺ Incomplete"@
    } else {
        "☒ Canceled"@
    }
}

/// The properties a mark writes: the status, the stop time (when stopped) and
/// the modification time.
pub open spec fn mark_props(status: i64, stopped: bool, now_ms: i64) -> Map<Seq<char>, JsonValue> {
    Map::empty().insert("ss"@, int_value(status)).insert(
        "sp"@,
        if stopped {
            JsonValue::Millis(now_ms)
        } else {
            JsonValue::Null
        },
    ).insert("md"@, JsonValue::Millis(now_ms))
}

/// A line reporting one changed record.
pub open spec fn done_line(label: Seq<char>, title: Seq<char>, uuid: Seq<char>, no_color: bool) -> Seq<char> {
    colored_text(label, seq![GREEN], no_color) + " "@ + title + "  "@ + colored_text(uuid, seq![DIM], no_color)
}

fn mark_props_map(status: i64, stopped: bool, now_ms: i64) -> (r: KeyMap<JsonValue>)
    ensures
        r.wf(),
        r@ == mark_props(status, stopped, now_ms),
{
    let sp = if stopped { JsonValue::Millis(now_ms) } else { JsonValue::Null };
    let keys = ["ss", "sp", "md"];
    let r = props_from(&keys, vec![JsonValue::integer(status), sp, JsonValue::Millis(now_ms)]);
    proof {
        let v = seq![int_value(status), if stopped { JsonValue::Millis(now_ms) } else { JsonValue::Null }, JsonValue::Millis(now_ms)];
        let k = keys@;
        assert(k.drop_last().drop_last().drop_last().len() == 0);
        assert(props_of(k.drop_last().drop_last(), v.drop_last().drop_last()) == props_of(k.drop_last().drop_last().drop_last(), v.drop_last().drop_last().drop_last()).insert(k[0]@, v[0]));
        assert(props_of(k.drop_last(), v.drop_last()) == props_of(k.drop_last().drop_last(), v.drop_last().drop_last()).insert(k[1]@, v[1]));
        assert(props_of(k, v) == props_of(k.drop_last(), v.drop_last()).insert(k[2]@, v[2]));
        assert(props_of(k, v) =~= mark_props(status, stopped, now_ms));
    }
    r
}

/// One report line.
pub fn done_line_text(label: &str, title: &str, uuid: &str, no_color: bool) -> (r: String)
    ensures
        r@ == done_line(label@, title@, uuid@, no_color),
{
    let head = paint(label, GREEN, no_color);
    let tail = dim(uuid, no_color);
    concat(concat(concat(concat(head.as_str(), " ").as_str(), title).as_str(), "  ").as_str(), tail.as_str())
}

/// Some task of `ts` has the id `u`.
pub open spec fn task_listed(ts: Seq<Task>, u: Seq<char>) -> bool {
    exists|a: int| 0 <= a < ts.len() && (#[trigger] ts[a]).uuid@ == u
}

/// Resolves each task id in turn: a task that resolves joins the targets
/// (once); an id that does not adds its message.
pub open spec fn gather_targets(tasks: Map<Seq<char>, Task>, ids: Seq<String>, idents: Seq<Seq<char>>) -> (Seq<Seq<char>>, Seq<Task>)
    decreases idents.len(),
{
    if idents.len() == 0 {
        (seq![], seq![])
    } else {
        let (notes, ts) = gather_targets(tasks, ids, idents.drop_last());
        let r = resolved(tasks, ids, idents.last(), "Item"@);
        match r.0 {
            None => (notes.push(r.1), ts),
            Some(t) => if task_listed(ts, t.uuid@) {
                (notes, ts)
            } else {
                (notes, ts.push(t))
            },
        }
    }
}

/// Checks each target in turn: one that cannot take the action adds its
/// reason and title; the others are kept.
pub open spec fn sift_targets(tasks: Map<Seq<char>, Task>, ts: Seq<Task>, action: Seq<char>) -> (Seq<Seq<char>>, Seq<Task>)
    decreases ts.len(),
{
    if ts.len() == 0 {
        (seq![], seq![])
    } else {
        let (notes, ok) = sift_targets(tasks, ts.drop_last(), action);
        let t = ts.last();
        let msg = mark_block(tasks, t, action);
        if msg.len() > 0 {
            (notes.push(msg + " ("@ + t.title@ + ")"@), ok)
        } else {
            (notes, ok.push(t))
        }
    }
}

/// The changes, lines and failure text of a plan that writes `objects` for
/// the records `recs` (each under its own id) and reports each with `word`.
pub open spec fn writes_records(
    p: CommandPlan,
    recs: Seq<Task>,
    objects: spec_fn(Task) -> (OperationType, Option<EntityType>, Map<Seq<char>, JsonValue>),
    word: Seq<char>,
    fail: Seq<char>,
    no_color: bool,
) -> bool {
    &&& p.changes matches Some(w) && w.wf() && (forall|k: Seq<char>| #[trigger] w@.contains_key(k) <==> task_listed(recs, k))
        && (forall|a: int| 0 <= a < recs.len() ==> object_is(
        w@[(#[trigger] recs[a]).uuid@],
        objects(recs[a]).0,
        objects(recs[a]).1,
        objects(recs[a]).2,
    ))
    &&& p.done_lines@.len() == recs.len()
    &&& forall|a: int| 0 <= a < recs.len() ==> (#[trigger] p.done_lines@[a])@ == done_line(word, recs[a].title@, recs[a].uuid@, no_color)
    &&& p.fail_prefix@ == fail
}

/// What `mark` with a status does.
pub open spec fn status_plan(p: CommandPlan, tasks: Map<Seq<char>, Task>, ids: Seq<String>, args: MarkArgs, now_ms: i64, no_color: bool) -> bool {
    let action = mark_action(args);
    let g = gather_targets(tasks, ids, views(args.task_ids@));
    let s = sift_targets(tasks, g.1, action);
    &&& views(p.notes@) == g.0 + s.0
    &&& if s.1.len() == 0 {
        p.changes is None && p.done_lines@.len() == 0
    } else {
        writes_records(
            p,
            s.1,
            |t: Task| (OperationType::Update, Some(entity_of(t.entity)), mark_props(action_status(action), action != "incomplete"@, now_ms)),
            action_word(action),
            "Failed to mark items "@ + action + ": "@,
            no_color,
        )
    }
}

/// `mark` with a status writes the status it names to every task it marks:
/// `--done` the Completed code, else `--incomplete` the Incomplete code,
/// else (`--canceled`) the Canceled code; it writes a stop time, except when
/// reopening, where it clears it.
pub proof fn lemma_mark_writes_status(
    p: CommandPlan,
    tasks: Map<Seq<char>, Task>,
    ids: Seq<String>,
    args: MarkArgs,
    now_ms: i64,
    no_color: bool,
)
    requires
        status_plan(p, tasks, ids, args, now_ms, no_color),
    ensures
        p.changes matches Some(w) ==> forall|k: Seq<char>| #[trigger] w@.contains_key(k) ==> {
            let props = w@[k].properties@;
            &&& props.contains_key("ss"@) && props.contains_key("sp"@)
            &&& (args.done ==> props["ss"@] == int_value(task_status_code(TaskStatus::Completed) as i64))
            &&& (!args.done && args.incomplete ==> props["ss"@] == int_value(task_status_code(TaskStatus::Incomplete) as i64))
            &&& (!args.done && !args.incomplete ==> props["ss"@] == int_value(task_status_code(TaskStatus::Canceled) as i64))
            &&& (!args.done && args.incomplete ==> props["sp"@] == JsonValue::Null)
            &&& (args.done || !args.incomplete ==> props["sp"@] == JsonValue::Millis(now_ms))
        },
{
    reveal_strlit("ss");
    reveal_strlit("sp");
    reveal_strlit("md");
    reveal_strlit("done");
    reveal_strlit("incomplete");
    reveal_strlit("canceled");
    assert("ss"@.len() == 2 && "ss"@[0] == 's' && "ss"@[1] == 's');
    assert("sp"@.len() == 2 && "sp"@[0] == 's' && "sp"@[1] == 'p');
    assert("md"@.len() == 2 && "md"@[0] == 'm' && "md"@[1] == 'd');
    assert("done"@.len() == 4);
    assert("incomplete"@.len() == 10);
    assert("canceled"@.len() == 8);
    let action = mark_action(args);
    assert(action_status(action) == (if args.done { 3i64 } else if args.incomplete { 0i64 } else { 2i64 }));
    assert((action != "incomplete"@) == (args.done || !args.incomplete));
    let g = gather_targets(tasks, ids, views(args.task_ids@));
    let s = sift_targets(tasks, g.1, action);
    if p.changes is Some && s.1.len() > 0 {
        let w = p.changes.unwrap();
        let m = mark_props(action_status(action), action != "incomplete"@, now_ms);
        assert forall|k: Seq<char>| #[trigger] w@.contains_key(k) implies {
            let props = w@[k].properties@;
            &&& props.contains_key("ss"@) && props.contains_key("sp"@)
            &&& (args.done ==> props["ss"@] == int_value(task_status_code(TaskStatus::Completed) as i64))
            &&& (!args.done && args.incomplete ==> props["ss"@] == int_value(task_status_code(TaskStatus::Incomplete) as i64))
            &&& (!args.done && !args.incomplete ==> props["ss"@] == int_value(task_status_code(TaskStatus::Canceled) as i64))
            &&& (!args.done && args.incomplete ==> props["sp"@] == JsonValue::Null)
            &&& (args.done || !args.incomplete ==> props["sp"@] == JsonValue::Millis(now_ms))
        } by {
            assert(task_listed(s.1, k));
            let a = choose|a: int| 0 <= a < s.1.len() && (#[trigger] s.1[a]).uuid@ == k;
            assert(object_is(w@[s.1[a].uuid@], OperationType::Update, Some(entity_of(s.1[a].entity)), m));
        }
    }
}

fn listed(ts: &Vec<&Task>, u: &str) -> (r: bool)
    ensures
        r == task_listed(deref_all(ts@), u@),
{
    let mut a: usize = 0;
    while a < ts.len()
        invariant
            a <= ts@.len(),
            forall|k: int| 0 <= k < a ==> (*#[trigger] ts@[k]).uuid@ != u@,
        decreases ts@.len() - a,
    {
        if same_text(ts[a].uuid.as_str(), u) {
            proof {
                assert(deref_all(ts@)[a as int].uuid@ == u@);
            }
            return true;
        }
        a += 1;
    }
    false
}

/// The change set and report lines for marked tasks.
fn write_marks(
    ok: &Vec<&Task>,
    status: i64,
    stopped: bool,
    now_ms: i64,
    word: &str,
    no_color: bool,
) -> (r: (KeyMap<WireObject>, Vec<String>))
    requires
        forall|a: int, b: int| 0 <= a < ok@.len() && 0 <= b < ok@.len() && a != b ==> (*#[trigger] ok@[a]).uuid@ != (*#[trigger] ok@[b]).uuid@,
    ensures
        r.0.wf(),
        forall|k: Seq<char>| #[trigger] r.0@.contains_key(k) <==> task_listed(deref_all(ok@), k),
        forall|a: int| 0 <= a < ok@.len() ==> object_is(
            r.0@[(*#[trigger] ok@[a]).uuid@],
            OperationType::Update,
            Some(entity_of(ok@[a].entity)),
            mark_props(status, stopped, now_ms),
        ),
        r.1@.len() == ok@.len(),
        forall|a: int| 0 <= a < ok@.len() ==> (#[trigger] r.1@[a])@ == done_line(word@, ok@[a].title@, ok@[a].uuid@, no_color),
{
    let mut w: KeyMap<WireObject> = KeyMap::new();
    let mut lines: Vec<String> = Vec::new();
    let mut i: usize = 0;
    while i < ok.len()
        invariant
            i <= ok@.len(),
            forall|a: int, b: int| 0 <= a < ok@.len() && 0 <= b < ok@.len() && a != b ==> (*#[trigger] ok@[a]).uuid@ != (*#[trigger] ok@[b]).uuid@,
            w.wf(),
            forall|k: Seq<char>| #[trigger] w@.contains_key(k) <==> task_listed(deref_all(ok@.take(i as int)), k),
            forall|a: int| 0 <= a < i ==> object_is(
                w@[(*#[trigger] ok@[a]).uuid@],
                OperationType::Update,
                Some(entity_of(ok@[a].entity)),
                mark_props(status, stopped, now_ms),
            ),
            lines@.len() == i,
            forall|a: int| 0 <= a < i ==> (#[trigger] lines@[a])@ == done_line(word@, ok@[a].title@, ok@[a].uuid@, no_color),
        decreases ok@.len() - i,
    {
        let t = ok[i];
        let entity = EntityType::from(t.entity.clone());
        let obj = WireObject {
            operation_type: OperationType::Update,
            entity_type: Some(entity),
            properties: mark_props_map(status, stopped, now_ms),
        };
        let ghost before = w@;
        w.insert(t.uuid.clone(), obj);
        lines.push(done_line_text(word, t.title.as_str(), t.uuid.as_str(), no_color));
        proof {
            let da = deref_all(ok@.take(i + 1));
            let db = deref_all(ok@.take(i as int));
            assert forall|k: Seq<char>| #[trigger] w@.contains_key(k) <==> task_listed(da, k) by {
                if task_listed(da, k) {
                    let a = choose|a: int| 0 <= a < da.len() && (#[trigger] da[a]).uuid@ == k;
                    if a < i {
                        assert(db[a].uuid@ == k);
                    }
                }
                if before.contains_key(k) {
                    let a = choose|a: int| 0 <= a < db.len() && (#[trigger] db[a]).uuid@ == k;
                    assert(da[a].uuid@ == k);
                }
                if k == t.uuid@ {
                    assert(da[i as int].uuid@ == k);
                }
            }
            assert forall|a: int| 0 <= a < i + 1 implies object_is(
                w@[(*#[trigger] ok@[a]).uuid@],
                OperationType::Update,
                Some(entity_of(ok@[a].entity)),
                mark_props(status, stopped, now_ms),
            ) by {
                if a < i {
                    assert(ok@[a].uuid@ != ok@[i as int].uuid@);
                }
            }
        }
        i += 1;
    }
    proof {
        assert(ok@.take(ok@.len() as int) =~= ok@);
    }
    (w, lines)
}

/// The plan of `mark` with a status.
fn plan_status(args: &MarkArgs, store: &ThingsStore, now_ms: i64, no_color: bool) -> (p: CommandPlan)
    requires
        store.wf(),
    ensures
        status_plan(p, store.tasks_by_uuid@, store.markable_ids_sorted@, *args, now_ms, no_color),
{
    let action: &str = if args.done {
        "done"
    } else if args.incomplete {
        "incomplete"
    } else {
        "canceled"
    };
    proof {
        assert(action@ == mark_action(*args));
    }
    let ghost tasks = store.tasks_by_uuid@;
    let ghost ids = store.markable_ids_sorted@;
    let ghost idents = views(args.task_ids@);
    let mut notes: Vec<String> = Vec::new();
    let mut targets: Vec<&Task> = Vec::new();
    let mut i: usize = 0;
    proof {
        assert(idents.take(0).len() == 0);
        assert(views(notes@) =~= Seq::<Seq<char>>::empty());
        assert(deref_all(targets@) =~= Seq::<Task>::empty());
    }
    while i < args.task_ids.len()
        invariant
            store.wf(),
            tasks == store.tasks_by_uuid@,
            ids == store.markable_ids_sorted@,
            idents == views(args.task_ids@),
            i <= args.task_ids@.len(),
            (views(notes@), deref_all(targets@)) == gather_targets(tasks, ids, idents.take(i as int)),
        decreases args.task_ids@.len() - i,
    {
        proof {
            assert(idents.take(i + 1).drop_last() =~= idents.take(i as int));
            assert(idents.take(i + 1).last() == args.task_ids@[i as int]@);
        }
        let (found, err, _) = store.resolve_mark_identifier(args.task_ids[i].as_str());
        match found {
            None => {
                let ghost before = notes@;
                notes.push(err);
                proof {
                    assert(views(notes@) =~= views(before).push(err@));
                }
            },
            Some(t) => {
                if !listed(&targets, t.uuid.as_str()) {
                    let ghost before = targets@;
                    targets.push(t);
                    proof {
                        assert(deref_all(targets@) =~= deref_all(before).push(*t));
                    }
                }
            },
        }
        i += 1;
    }
    proof {
        assert(idents.take(args.task_ids@.len() as int) =~= idents);
    }
    let ghost g = gather_targets(tasks, ids, idents);
    let ghost gnotes = views(notes@);
    let mut ok: Vec<&Task> = Vec::new();
    let mut j: usize = 0;
    proof {
        assert(deref_all(targets@).take(0).len() == 0);
        assert(deref_all(ok@) =~= Seq::<Task>::empty());
        assert(gnotes + Seq::<Seq<char>>::empty() =~= gnotes);
    }
    while j < targets.len()
        invariant
            store.wf(),
            tasks == store.tasks_by_uuid@,
            action@ == mark_action(*args),
            j <= targets@.len(),
            deref_all(targets@) == g.1,
            (views(notes@), deref_all(ok@)) == ({
                let sf = sift_targets(tasks, g.1.take(j as int), action@);
                (gnotes + sf.0, sf.1)
            }),
        decreases targets@.len() - j,
    {
        let t = targets[j];
        proof {
            assert(g.1.take(j + 1).drop_last() =~= g.1.take(j as int));
            assert(g.1.take(j + 1).last() == *t);
        }
        let msg = validate_mark_target(t, action, store);
        if !msg.as_str().is_empty() {
            let line = concat(concat(concat(msg.as_str(), " (").as_str(), t.title.as_str()).as_str(), ")");
            let ghost before = notes@;
            notes.push(line);
            proof {
                assert(views(notes@) =~= views(before).push(line@));
                let sf = sift_targets(tasks, g.1.take(j as int), action@);
                assert(gnotes + sf.0.push(line@) =~= (gnotes + sf.0).push(line@));
            }
        } else {
            let ghost before = ok@;
            ok.push(t);
            proof {
                assert(deref_all(ok@) =~= deref_all(before).push(*t));
            }
        }
        j += 1;
    }
    proof {
        assert(g.1.take(targets@.len() as int) =~= g.1);
    }
    let ghost s = sift_targets(tasks, g.1, action@);
    if ok.len() == 0 {
        return CommandPlan { notes, changes: None, done_lines: Vec::new(), fail_prefix: String::new() };
    }
    proof {
        lemma_gather_distinct(tasks, ids, idents);
        lemma_sift_distinct(tasks, g.1, action@);
        assert forall|a: int, b: int| 0 <= a < ok@.len() && 0 <= b < ok@.len() && a != b implies (*#[trigger] ok@[a]).uuid@ != (*#[trigger] ok@[b]).uuid@ by {
            assert(deref_all(ok@)[a] == *ok@[a] && deref_all(ok@)[b] == *ok@[b]);
        }
    }
    let status: i64 = if args.done {
        3
    } else if args.incomplete {
        0
    } else {
        2
    };
    let word: &str = if args.done {
        "✓ Done"
    } else if args.incomplete {
        "↺ Incomplete"
    } else {
        "☒ Canceled"
    };
    proof {
        reveal_strlit("done");
        reveal_strlit("incomplete");
        reveal_strlit("canceled");
        assert(status == action_status(action@));
        assert(word@ == action_word(action@));
    }
    let stopped = args.done || !args.incomplete;
    proof {
        reveal_strlit("done");
        reveal_strlit("incomplete");
        assert(stopped == (action@ != "incomplete"@));
    }
    let (w, lines) = write_marks(&ok, status, stopped, now_ms, word, no_color);
    let fail = concat(concat("Failed to mark items ", action).as_str(), ": ");
    let p = CommandPlan { notes, changes: Some(w), done_lines: lines, fail_prefix: fail };
    proof {
        assert forall|k: Seq<char>| #[trigger] w@.contains_key(k) <==> task_listed(s.1, k) by {
            assert(deref_all(ok@) == s.1);
        }
        assert forall|a: int| 0 <= a < s.1.len() implies object_is(
            w@[(#[trigger] s.1[a]).uuid@],
            OperationType::Update,
            Some(entity_of(s.1[a].entity)),
            mark_props(action_status(action@), action@ != "incomplete"@, now_ms),
        ) by {
            assert(s.1[a] == *ok@[a]);
        }
        assert forall|a: int| 0 <= a < s.1.len() implies (#[trigger] p.done_lines@[a])@ == done_line(action_word(action@), s.1[a].title@, s.1[a].uuid@, no_color) by {
            assert(s.1[a] == *ok@[a]);
        }
    }
    p
}

proof fn lemma_gather_distinct(tasks: Map<Seq<char>, Task>, ids: Seq<String>, idents: Seq<Seq<char>>)
    ensures
        forall|a: int, b: int|
            0 <= a < gather_targets(tasks, ids, idents).1.len() && 0 <= b < gather_targets(tasks, ids, idents).1.len() && a != b
                ==> (#[trigger] gather_targets(tasks, ids, idents).1[a]).uuid@ != (#[trigger] gather_targets(tasks, ids, idents).1[b]).uuid@,
    decreases idents.len(),
{
    if idents.len() > 0 {
        lemma_gather_distinct(tasks, ids, idents.drop_last());
    }
}

proof fn lemma_sift_distinct(tasks: Map<Seq<char>, Task>, ts: Seq<Task>, action: Seq<char>)
    requires
        forall|a: int, b: int| 0 <= a < ts.len() && 0 <= b < ts.len() && a != b ==> (#[trigger] ts[a]).uuid@ != (#[trigger] ts[b]).uuid@,
    ensures
        forall|a: int, b: int|
            0 <= a < sift_targets(tasks, ts, action).1.len() && 0 <= b < sift_targets(tasks, ts, action).1.len() && a != b
                ==> (#[trigger] sift_targets(tasks, ts, action).1[a]).uuid@ != (#[trigger] sift_targets(tasks, ts, action).1[b]).uuid@,
        forall|a: int| 0 <= a < sift_targets(tasks, ts, action).1.len() ==> task_listed(ts, (#[trigger] sift_targets(tasks, ts, action).1[a]).uuid@),
    decreases ts.len(),
{
    if ts.len() > 0 {
        let init = ts.drop_last();
        assert forall|a: int, b: int| 0 <= a < init.len() && 0 <= b < init.len() && a != b implies (#[trigger] init[a]).uuid@ != (#[trigger] init[b]).uuid@ by {
            assert(init[a] == ts[a] && init[b] == ts[b]);
        }
        lemma_sift_distinct(tasks, init, action);
        let ok0 = sift_targets(tasks, init, action).1;
        assert forall|a: int| 0 <= a < ok0.len() implies #[trigger] ok0[a].uuid@ != ts.last().uuid@ by {
            assert(task_listed(init, ok0[a].uuid@));
            let x = choose|x: int| 0 <= x < init.len() && (#[trigger] init[x]).uuid@ == ok0[a].uuid@;
            assert(init[x] == ts[x]);
        }
        let ok1 = sift_targets(tasks, ts, action).1;
        assert forall|a: int| 0 <= a < ok1.len() implies task_listed(ts, (#[trigger] ok1[a]).uuid@) by {
            if a < ok0.len() {
                assert(ok1[a] == ok0[a]);
                assert(task_listed(init, ok0[a].uuid@));
                let x = choose|x: int| 0 <= x < init.len() && (#[trigger] init[x]).uuid@ == ok0[a].uuid@;
                assert(ts[x] == init[x]);
            } else {
                assert(ts[ts.len() - 1].uuid@ == ok1[a].uuid@);
            }
        }
    }
}

/// The changes and lines of a plan that marks the checklist items `sel`.
pub open spec fn writes_items(
    p: CommandPlan,
    sel: Seq<ChecklistItem>,
    status: i64,
    now_ms: i64,
    word: Seq<char>,
    no_color: bool,
) -> bool {
    &&& p.changes matches Some(w) && w.wf() && (forall|k: Seq<char>| #[trigger] w@.contains_key(k) <==> has_uuid(sel, k))
        && (forall|a: int| 0 <= a < sel.len() ==> object_is(
        w@[(#[trigger] sel[a]).uuid@],
        OperationType::Update,
        Some(EntityType::ChecklistItem3),
        mark_props(status, status != 0, now_ms),
    ))
    &&& p.done_lines@.len() == sel.len()
    &&& forall|a: int| 0 <= a < sel.len() ==> (#[trigger] p.done_lines@[a])@ == done_line(word, sel[a].title@, sel[a].uuid@, no_color)
    &&& p.fail_prefix@ == "Failed to mark checklist items: "@
}

/// What `mark` with a checklist flag does.
pub open spec fn checklist_plan(
    p: CommandPlan,
    tasks: Map<Seq<char>, Task>,
    ids: Seq<String>,
    args: MarkArgs,
    raw: Seq<char>,
    now_ms: i64,
    no_color: bool,
) -> bool {
    if args.task_ids@.len() != 1 {
        reports_only(p, seq!["Checklist flags (--check, --uncheck, --check-cancel) require exactly one task ID."@])
    } else {
        let r = resolved(tasks, ids, args.task_ids@[0]@, "Item"@);
        match r.0 {
            None => reports_only(p, seq![r.1]),
            Some(t) => if t.checklist_items@.len() == 0 {
                reports_only(p, seq!["Task has no checklist items: "@ + t.title@])
            } else {
                match checklist_selection(t.checklist_items@, raw) {
                    Err(m) => reports_only(p, seq![m]),
                    Ok(sel) => p.notes@.len() == 0 && writes_items(p, sel, checklist_status(args), now_ms, checklist_word(args), no_color),
                }
            },
        }
    }
}

proof fn lemma_picks_distinct(items: Seq<ChecklistItem>, tokens: Seq<Seq<char>>)
    ensures
        pick_items(items, tokens) matches Ok(sel) ==> forall|a: int, b: int|
            0 <= a < sel.len() && 0 <= b < sel.len() && a != b ==> (#[trigger] sel[a]).uuid@ != (#[trigger] sel[b]).uuid@,
    decreases tokens.len(),
{
    if tokens.len() > 0 {
        lemma_picks_distinct(items, tokens.drop_last());
    }
}

fn write_item_marks(sel: &Vec<ChecklistItem>, status: i64, now_ms: i64, word: &str, no_color: bool) -> (r: (KeyMap<WireObject>, Vec<String>))
    requires
        forall|a: int, b: int| 0 <= a < sel@.len() && 0 <= b < sel@.len() && a != b ==> (#[trigger] sel@[a]).uuid@ != (#[trigger] sel@[b]).uuid@,
    ensures
        r.0.wf(),
        forall|k: Seq<char>| #[trigger] r.0@.contains_key(k) <==> has_uuid(sel@, k),
        forall|a: int| 0 <= a < sel@.len() ==> object_is(
            r.0@[(#[trigger] sel@[a]).uuid@],
            OperationType::Update,
            Some(EntityType::ChecklistItem3),
            mark_props(status, status != 0, now_ms),
        ),
        r.1@.len() == sel@.len(),
        forall|a: int| 0 <= a < sel@.len() ==> (#[trigger] r.1@[a])@ == done_line(word@, sel@[a].title@, sel@[a].uuid@, no_color),
{
    let mut w: KeyMap<WireObject> = KeyMap::new();
    let mut lines: Vec<String> = Vec::new();
    let mut i: usize = 0;
    while i < sel.len()
        invariant
            i <= sel@.len(),
            forall|a: int, b: int| 0 <= a < sel@.len() && 0 <= b < sel@.len() && a != b ==> (#[trigger] sel@[a]).uuid@ != (#[trigger] sel@[b]).uuid@,
            w.wf(),
            forall|k: Seq<char>| #[trigger] w@.contains_key(k) <==> has_uuid(sel@.take(i as int), k),
            forall|a: int| 0 <= a < i ==> object_is(
                w@[(#[trigger] sel@[a]).uuid@],
                OperationType::Update,
                Some(EntityType::ChecklistItem3),
                mark_props(status, status != 0, now_ms),
            ),
            lines@.len() == i,
            forall|a: int| 0 <= a < i ==> (#[trigger] lines@[a])@ == done_line(word@, sel@[a].title@, sel@[a].uuid@, no_color),
        decreases sel@.len() - i,
    {
        let c = &sel[i];
        let obj = WireObject {
            operation_type: OperationType::Update,
            entity_type: Some(EntityType::ChecklistItem3),
            properties: mark_props_map(status, status != 0, now_ms),
        };
        let ghost before = w@;
        w.insert(c.uuid.clone(), obj);
        lines.push(done_line_text(word, c.title.as_str(), c.uuid.as_str(), no_color));
        proof {
            let da = sel@.take(i + 1);
            let db = sel@.take(i as int);
            assert forall|k: Seq<char>| #[trigger] w@.contains_key(k) <==> has_uuid(da, k) by {
                if has_uuid(da, k) {
                    let a = choose|a: int| 0 <= a < da.len() && (#[trigger] da[a]).uuid@ == k;
                    if a < i {
                        assert(db[a].uuid@ == k);
                    }
                }
                if before.contains_key(k) {
                    let a = choose|a: int| 0 <= a < db.len() && (#[trigger] db[a]).uuid@ == k;
                    assert(da[a].uuid@ == k);
                }
                if k == c.uuid@ {
                    assert(da[i as int].uuid@ == k);
                }
            }
            assert forall|a: int| 0 <= a < i + 1 implies object_is(
                w@[(#[trigger] sel@[a]).uuid@],
                OperationType::Update,
                Some(EntityType::ChecklistItem3),
                mark_props(status, status != 0, now_ms),
            ) by {
                if a < i {
                    assert(sel@[a].uuid@ != sel@[i as int].uuid@);
                }
            }
        }
        i += 1;
    }
    proof {
        assert(sel@.take(sel@.len() as int) =~= sel@);
    }
    (w, lines)
}

fn plan_checklist(args: &MarkArgs, raw: &str, store: &ThingsStore, now_ms: i64, no_color: bool) -> (p: CommandPlan)
    requires
        store.wf(),
        checklist_flag(*args) == Some(raw@),
    ensures
        checklist_plan(p, store.tasks_by_uuid@, store.markable_ids_sorted@, *args, raw@, now_ms, no_color),
{
    if args.task_ids.len() != 1 {
        return report_one(owned("Checklist flags (--check, --uncheck, --check-cancel) require exactly one task ID."));
    }
    let (found, err, _) = store.resolve_mark_identifier(args.task_ids[0].as_str());
    let task = match found {
        None => {
            return report_one(err);
        },
        Some(t) => t,
    };
    if task.checklist_items.len() == 0 {
        return report_one(concat("Task has no checklist items: ", task.title.as_str()));
    }
    let (sel, msg) = resolve_checklist_items(task, raw);
    if !msg.as_str().is_empty() {
        return report_one(msg);
    }
    proof {
        let toks = comma_tokens(raw@);
        lemma_picks_distinct(task.checklist_items@, toks);
        if checklist_selection(task.checklist_items@, raw@) is Err {
            assert(msg@.len() > 0) by {
                reveal_strlit("No checklist item IDs provided.");
                lemma_pick_msgs(task.checklist_items@, toks);
            }
        }
    }
    let status: i64 = if args.check_ids.is_some() {
        3
    } else if args.uncheck_ids.is_some() {
        0
    } else {
        2
    };
    let word: &str = if args.check_ids.is_some() {
        "● Checked"
    } else if args.uncheck_ids.is_some() {
        "○ Unchecked"
    } else {
        "× Canceled"
    };
    let (w, lines) = write_item_marks(&sel, status, now_ms, word, no_color);
    CommandPlan {
        notes: Vec::new(),
        changes: Some(w),
        done_lines: lines,
        fail_prefix: owned("Failed to mark checklist items: "),
    }
}

pub(crate) proof fn lemma_pick_msgs(items: Seq<ChecklistItem>, tokens: Seq<Seq<char>>)
    ensures
        pick_items(items, tokens) matches Err(m) ==> m.len() > 0,
    decreases tokens.len(),
{
    reveal_strlit("'");
    if tokens.len() > 0 {
        lemma_pick_msgs(items, tokens.drop_last());
    }
}

impl MarkArgs {
    /// What `mark` does with the store as it is, at `now_ms`: with a checklist
    /// flag it marks the checklist items of one task, otherwise it sets the
    /// status of each task named.
    pub fn plan(&self, store: &ThingsStore, now_ms: i64, no_color: bool) -> (p: CommandPlan)
        requires
            store.wf(),
        ensures
            match checklist_flag(*self) {
                Some(raw) => checklist_plan(p, store.tasks_by_uuid@, store.markable_ids_sorted@, *self, raw, now_ms, no_color),
                None => status_plan(p, store.tasks_by_uuid@, store.markable_ids_sorted@, *self, now_ms, no_color),
            },
            checklist_flag(*self) is None ==> (p.changes matches Some(w) ==> forall|k: Seq<char>| #[trigger] w@.contains_key(k) ==> {
                let props = w@[k].properties@;
                &&& props.contains_key("ss"@)
                &&& (self.done ==> props["ss"@] == int_value(task_status_code(TaskStatus::Completed) as i64))
                &&& (!self.done && self.incomplete ==> props["ss"@] == int_value(task_status_code(TaskStatus::Incomplete) as i64))
                &&& (!self.done && !self.incomplete ==> props["ss"@] == int_value(task_status_code(TaskStatus::Canceled) as i64))
            }),
    {
        let raw: Option<&String> = match &self.check_ids {
            Some(x) => Some(x),
            None => match &self.uncheck_ids {
                Some(x) => Some(x),
                None => match &self.check_cancel_ids {
                    Some(x) => Some(x),
                    None => None,
                },
            },
        };
        match raw {
            Some(r) => plan_checklist(self, r.as_str(), store, now_ms, no_color),
            None => {
                let p = plan_status(self, store, now_ms, no_color);
                proof {
                    lemma_mark_writes_status(p, store.tasks_by_uuid@, store.markable_ids_sorted@, *self, now_ms, no_color);
                }
                p
            },
        }
    }
}

} // verus!
