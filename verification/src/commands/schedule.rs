//! `schedule`: sets when a task starts and its deadline.

use vstd::prelude::*;
use crate::commands::{CommandPlan, object_is, report_one, reports_only};
use crate::commands::mark::{done_line, done_line_text};
use crate::commands::new::day_result_ok;
use crate::common::{DIM, colored_text, dim, icons, parse_day};
use crate::json::{JsonValue, int_value};
use crate::keymap::KeyMap;
use crate::lookup::{resolved, deref_opt};
use crate::props::{Props, opt_view};
use crate::store::Task;
use crate::text::{concat, owned, same_text, trim, trimmed, lowercase, to_lowercase, join_sep, join_strings, views};
use crate::things::ThingsStore;
use crate::wire::{EntityType, OperationType, TaskStart, WireObject, entity_of, task_start_code};

verus! {

/// The arguments of `schedule`.
pub struct ScheduleArgs {
    pub task_id: String,
    pub when: Option<String>,
    pub deadline_date: Option<String>,
    pub clear_deadline: bool,
}

/// `--when`, trimmed and lower-cased.
pub open spec fn when_word(w: Seq<char>) -> Seq<char> {
    lowercase(trimmed(w))
}

/// Whether `--when` names a day rather than one of the lists.
pub open spec fn names_day(w: Seq<char>) -> bool {
    let l = when_word(w);
    l != "anytime"@ && l != "today"@ && l != "evening"@ && l != "someday"@
}

/// `wp` is what reading the day of `--when` gives, where it names a day.
pub open spec fn when_day_ok(when: Option<String>, wp: Result<i64, Seq<char>>) -> bool {
    match when {
        Some(w) => names_day(w@) ==> day_result_ok(trimmed(w@), "--when"@, wp),
        None => true,
    }
}

/// The start properties: `st`, the start date and today-index date, and `sb`.
pub open spec fn start_props(st: i64, day: Option<i64>, sb: i64) -> Props {
    let d = match day {
        Some(x) => int_value(x),
        None => JsonValue::Null,
    };
    Map::empty().insert("st"@, int_value(st)).insert("sr"@, d).insert("tir"@, d).insert("sb"@, int_value(sb))
}

/// What `--when` sets, with its label; `parsed` is the day it names, when it names one.
pub open spec fn when_update(w: Seq<char>, today: i64, parsed: Result<i64, Seq<char>>) -> Result<(Props, Seq<char>), Seq<char>> {
    let l = when_word(w);
    if l == "anytime"@ {
        Ok((start_props(1, None, 0), "anytime"@))
    } else if l == "today"@ {
        Ok((start_props(1, Some(today), 0), "today"@))
    } else if l == "evening"@ {
        Ok((start_props(1, Some(today), 1), "evening"@))
    } else if l == "someday"@ {
        Ok((start_props(2, None, 0), "someday"@))
    } else {
        match parsed {
            Err(m) => Err(m),
            Ok(d) => Ok((start_props(if d <= today { 1 } else { 2 }, Some(d), 0), "when="@ + trimmed(w))),
        }
    }
}

/// The properties `schedule` changes (before the modification time), or the
/// message of a day that does not parse.
pub open spec fn schedule_update(
    args: ScheduleArgs,
    today: i64,
    wp: Result<i64, Seq<char>>,
    dp: Result<i64, Seq<char>>,
) -> Result<Props, Seq<char>> {
    let base: Result<Props, Seq<char>> = match args.when {
        None => Ok(Map::empty()),
        Some(w) => match when_update(w@, today, wp) {
            Ok(x) => Ok(x.0),
            Err(e) => Err(e),
        },
    };
    match base {
        Err(e) => Err(e),
        Ok(m) => {
            let with_deadline: Result<Props, Seq<char>> = match args.deadline_date {
                None => Ok(m),
                Some(_) => match dp {
                    Err(e) => Err(e),
                    Ok(d) => Ok(m.insert("dd"@, int_value(d))),
                },
            };
            match with_deadline {
                Err(e) => Err(e),
                Ok(m2) => Ok(if args.clear_deadline { m2.insert("dd"@, JsonValue::Null) } else { m2 }),
            }
        },
    }
}

/// The label of the start change.
pub open spec fn when_label(args: ScheduleArgs, today: i64, wp: Result<i64, Seq<char>>) -> Seq<char> {
    match args.when {
        Some(w) => match when_update(w@, today, wp) {
            Ok(x) => x.1,
            Err(_) => "when"@,
        },
        None => "when"@,
    }
}

/// The labels of a done line: the start change and the deadline change.
pub open spec fn schedule_labels(args: ScheduleArgs, today: i64, wp: Result<i64, Seq<char>>, u: Props) -> Seq<Seq<char>> {
    let a: Seq<Seq<char>> = if u.contains_key("st"@) { seq![when_label(args, today, wp)] } else { seq![] };
    let b: Seq<Seq<char>> = if u.contains_key("dd"@) {
        if u["dd"@] is Null {
            seq!["deadline=none"@]
        } else {
            seq!["deadline="@ + match args.deadline_date { Some(d) => d@, None => seq![] }]
        }
    } else {
        seq![]
    };
    a + b
}

/// The line printed once a task is scheduled.
pub open spec fn schedule_line(t: Task, labels: Seq<Seq<char>>, no_color: bool) -> Seq<char> {
    done_line("✓"@ + " Scheduled"@, t.title@, t.uuid@, no_color) + " "@
        + colored_text("("@ + join_sep(labels, ", "@) + ")"@, seq![DIM], no_color)
}

/// What `schedule` does, at `now_ms` on the day `today`; `wp` and `dp` are
/// the days that `--when` and `--deadline` name, where they name one.
pub open spec fn schedule_outcome(
    p: CommandPlan,
    tasks: Map<Seq<char>, Task>,
    ids: Seq<String>,
    args: ScheduleArgs,
    now_ms: i64,
    today: i64,
    wp: Result<i64, Seq<char>>,
    dp: Result<i64, Seq<char>>,
    no_color: bool,
) -> bool {
    let r = resolved(tasks, ids, args.task_id@, "Item"@);
    match r.0 {
        None => reports_only(p, seq![r.1]),
        Some(t) => match schedule_update(args, today, wp, dp) {
            Err(m) => reports_only(p, seq![m]),
            Ok(u) => if u.dom().len() == 0 {
                reports_only(p, seq!["No schedule changes requested."@])
            } else {
                &&& p.notes@.len() == 0
                &&& p.changes matches Some(w) && w.wf() && w@.dom() == set![t.uuid@]
                    && object_is(w@[t.uuid@], OperationType::Update, Some(entity_of(t.entity)), u.insert("md"@, JsonValue::Millis(now_ms)))
                &&& p.done_lines@.len() == 1
                &&& p.done_lines@[0]@ == schedule_line(t, schedule_labels(args, today, wp, u), no_color)
                &&& p.fail_prefix@ == "Failed to schedule item: "@
            },
        },
    }
}

/// The start a scheduled task gets: `--when today` puts it in Anytime
/// starting today, as the Today view lists it; `--when evening` likewise,
/// set for the evening; `--when anytime` in Anytime with no start date; and
/// `--when someday` in Someday with no start date.
pub proof fn lemma_schedule_start(
    p: CommandPlan,
    tasks: Map<Seq<char>, Task>,
    ids: Seq<String>,
    args: ScheduleArgs,
    now_ms: i64,
    today: i64,
    wp: Result<i64, Seq<char>>,
    dp: Result<i64, Seq<char>>,
    no_color: bool,
)
    requires
        schedule_outcome(p, tasks, ids, args, now_ms, today, wp, dp, no_color),
    ensures
        p.changes matches Some(w) ==> forall|k: Seq<char>| #[trigger] w@.contains_key(k) ==> ({
            let props = w@[k].properties@;
            let anytime = int_value(task_start_code(TaskStart::Anytime) as i64);
            let someday = int_value(task_start_code(TaskStart::Someday) as i64);
            args.when matches Some(x) ==> {
                &&& props.contains_key("st"@) && props.contains_key("sr"@) && props.contains_key("tir"@) && props.contains_key("sb"@)
                &&& (when_word(x@) == "today"@ ==> props["st"@] == anytime && props["sr"@] == int_value(today)
                    && props["tir"@] == int_value(today) && props["sb"@] == int_value(0))
                &&& (when_word(x@) == "evening"@ ==> props["st"@] == anytime && props["sr"@] == int_value(today)
                    && props["tir"@] == int_value(today) && props["sb"@] == int_value(1))
                &&& (when_word(x@) == "anytime"@ ==> props["st"@] == anytime && props["sr"@] == JsonValue::Null
                    && props["sb"@] == int_value(0))
                &&& (when_word(x@) == "someday"@ ==> props["st"@] == someday && props["sr"@] == JsonValue::Null
                    && props["sb"@] == int_value(0))
            }
        }),
{
    reveal_strlit("st");
    reveal_strlit("sr");
    reveal_strlit("tir");
    reveal_strlit("sb");
    reveal_strlit("dd");
    reveal_strlit("md");
    reveal_strlit("today");
    reveal_strlit("evening");
    reveal_strlit("anytime");
    reveal_strlit("someday");
    assert("st"@.len() == 2 && "st"@[0] == 's' && "st"@[1] == 't');
    assert("sr"@.len() == 2 && "sr"@[0] == 's' && "sr"@[1] == 'r');
    assert("tir"@.len() == 3 && "tir"@[0] == 't');
    assert("sb"@.len() == 2 && "sb"@[0] == 's' && "sb"@[1] == 'b');
    assert("dd"@.len() == 2 && "dd"@[0] == 'd');
    assert("md"@.len() == 2 && "md"@[0] == 'm');
    assert("today"@.len() == 5 && "today"@[0] == 't');
    assert("evening"@.len() == 7 && "evening"@[0] == 'e');
    assert("anytime"@.len() == 7 && "anytime"@[0] == 'a');
    assert("someday"@.len() == 7 && "someday"@[0] == 's');
}

fn start_props_map(st: i64, day: Option<i64>, sb: i64) -> (r: KeyMap<JsonValue>)
    ensures
        r.wf(),
        r@ == start_props(st, day, sb),
{
    let mut m: KeyMap<JsonValue> = KeyMap::new();
    m.insert(owned("st"), JsonValue::integer(st));
    match day {
        Some(d) => {
            m.insert(owned("sr"), JsonValue::integer(d));
            m.insert(owned("tir"), JsonValue::integer(d));
        },
        None => {
            m.insert(owned("sr"), JsonValue::Null);
            m.insert(owned("tir"), JsonValue::Null);
        },
    }
    m.insert(owned("sb"), JsonValue::integer(sb));
    m
}

fn when_changes(w: &str, today: i64, parsed: &Result<i64, String>) -> (r: Result<(KeyMap<JsonValue>, String), String>)
    ensures
        match when_update(w@, today, match parsed { Ok(d) => Ok(*d), Err(m) => Err(m@) }) {
            Ok(x) => r matches Ok(y) && y.0.wf() && y.0@ == x.0 && y.1@ == x.1,
            Err(e) => r matches Err(m) && m@ == e,
        },
{
    let t = trim(w);
    let l = to_lowercase(t.as_str());
    if same_text(l.as_str(), "anytime") {
        Ok((start_props_map(1, None, 0), owned("anytime")))
    } else if same_text(l.as_str(), "today") {
        Ok((start_props_map(1, Some(today), 0), owned("today")))
    } else if same_text(l.as_str(), "evening") {
        Ok((start_props_map(1, Some(today), 1), owned("evening")))
    } else if same_text(l.as_str(), "someday") {
        Ok((start_props_map(2, None, 0), owned("someday")))
    } else {
        match parsed {
            Err(m) => Err(m.clone()),
            Ok(d) => {
                let st: i64 = if *d <= today { 1 } else { 2 };
                Ok((start_props_map(st, Some(*d), 0), concat("when=", t.as_str())))
            },
        }
    }
}

fn schedule_changes(
    args: &ScheduleArgs,
    today: i64,
    wp: &Result<i64, String>,
    dp: &Result<i64, String>,
) -> (r: Result<(KeyMap<JsonValue>, String), String>)
    ensures
        match schedule_update(
            *args,
            today,
            match wp { Ok(d) => Ok(*d), Err(m) => Err(m@) },
            match dp { Ok(d) => Ok(*d), Err(m) => Err(m@) },
        ) {
            Ok(u) => r matches Ok(y) && y.0.wf() && y.0@ == u
                && y.1@ == when_label(*args, today, match wp { Ok(d) => Ok(*d), Err(m) => Err(m@) }),
            Err(e) => r matches Err(m) && m@ == e,
        },
{
    let (mut m, label) = match &args.when {
        None => (KeyMap::new(), owned("when")),
        Some(w) => match when_changes(w.as_str(), today, wp) {
            Ok(x) => x,
            Err(e) => return Err(e),
        },
    };
    match &args.deadline_date {
        None => {},
        Some(_) => match dp {
            Err(e) => return Err(e.clone()),
            Ok(d) => {
                m.insert(owned("dd"), JsonValue::integer(*d));
            },
        },
    }
    if args.clear_deadline {
        m.insert(owned("dd"), JsonValue::Null);
    }
    Ok((m, label))
}

fn label_list(args: &ScheduleArgs, u: &KeyMap<JsonValue>, when_text: String) -> (r: Vec<String>)
    requires
        u.wf(),
    ensures
        views(r@) == {
            let a: Seq<Seq<char>> = if u@.contains_key("st"@) { seq![when_text@] } else { seq![] };
            let b: Seq<Seq<char>> = if u@.contains_key("dd"@) {
                if u@["dd"@] is Null {
                    seq!["deadline=none"@]
                } else {
                    seq!["deadline="@ + match args.deadline_date { Some(d) => d@, None => seq![] }]
                }
            } else {
                seq![]
            };
            a + b
        },
{
    let mut labels: Vec<String> = Vec::new();
    if u.contains_key("st") {
        labels.push(when_text);
    }
    let ghost a = views(labels@);
    match u.get("dd") {
        Some(v) => {
            let text = match v {
                JsonValue::Null => owned("deadline=none"),
                _ => match &args.deadline_date {
                    Some(d) => concat("deadline=", d.as_str()),
                    None => owned("deadline="),
                },
            };
            labels.push(text);
            proof {
                assert(views(labels@) =~= a.push(text@));
                if !(u@["dd"@] is Null) && args.deadline_date is None {
                    assert("deadline="@ + seq![] =~= "deadline="@);
                }
            }
        },
        None => {},
    }
    proof {
        if u@.contains_key("st"@) {
            assert(a =~= seq![when_text@]);
        } else {
            assert(a =~= seq![]);
        }
        assert(views(labels@) =~= ({
            let a: Seq<Seq<char>> = if u@.contains_key("st"@) { seq![when_text@] } else { seq![] };
            let b: Seq<Seq<char>> = if u@.contains_key("dd"@) {
                if u@["dd"@] is Null {
                    seq!["deadline=none"@]
                } else {
                    seq!["deadline="@ + match args.deadline_date { Some(d) => d@, None => seq![] }]
                }
            } else {
                seq![]
            };
            a + b
        }));
    }
    labels
}

impl ScheduleArgs {
    /// What `schedule` does, given the days that `--when` and `--deadline`
    /// name (where they name one), at `now_ms` on the day `today`.
    pub fn plan_with(
        &self,
        store: &ThingsStore,
        now_ms: i64,
        today: i64,
        when_parsed: &Result<i64, String>,
        deadline_parsed: &Result<i64, String>,
        no_color: bool,
    ) -> (p: CommandPlan)
        requires
            store.wf(),
        ensures
            schedule_outcome(
                p,
                store.tasks_by_uuid@,
                store.markable_ids_sorted@,
                *self,
                now_ms,
                today,
                match when_parsed { Ok(d) => Ok(*d), Err(m) => Err(m@) },
                match deadline_parsed { Ok(d) => Ok(*d), Err(m) => Err(m@) },
                no_color,
            ),
            p.changes matches Some(w) ==> forall|k: Seq<char>| #[trigger] w@.contains_key(k) ==> (self.when matches Some(x) ==> (
                when_word(x@) == "today"@ ==> {
                    let props = w@[k].properties@;
                    &&& props.contains_key("st"@) && props["st"@] == int_value(task_start_code(TaskStart::Anytime) as i64)
                    &&& props.contains_key("sr"@) && props["sr"@] == int_value(today)
                    &&& props.contains_key("sb"@) && props["sb"@] == int_value(0)
                })),
    {
        let r = store.resolve_mark_identifier(self.task_id.as_str());
        let t = match r.0 {
            None => return report_one(r.1),
            Some(t) => t,
        };
        let (mut u, when_text) = match schedule_changes(self, today, when_parsed, deadline_parsed) {
            Err(m) => return report_one(m),
            Ok(x) => x,
        };
        proof {
            u.lemma_entries();
        }
        if u.len() == 0 {
            proof {
                assert(u@.dom() =~= Set::empty());
            }
            return report_one(owned("No schedule changes requested."));
        }
        let labels = label_list(self, &u, when_text);
        let ghost uv = u@;
        u.insert(owned("md"), JsonValue::Millis(now_ms));
        let mut w: KeyMap<WireObject> = KeyMap::new();
        w.insert(t.uuid.clone(), WireObject {
            operation_type: OperationType::Update,
            entity_type: Some(EntityType::from(t.entity.clone())),
            properties: u,
        });
        let head = done_line_text(concat(icons().done, " Scheduled").as_str(), t.title.as_str(), t.uuid.as_str(), no_color);
        let joined = join_strings(&labels, ", ");
        let tail = dim(concat(concat("(", joined.as_str()).as_str(), ")").as_str(), no_color);
        let line = concat(concat(head.as_str(), " ").as_str(), tail.as_str());
        let mut lines: Vec<String> = Vec::new();
        lines.push(line);
        proof {
            assert(w@.dom() =~= set![t.uuid@]);
        }
        let p = CommandPlan { notes: Vec::new(), changes: Some(w), done_lines: lines, fail_prefix: owned("Failed to schedule item: ") };
        proof {
            assert(schedule_outcome(
                p,
                store.tasks_by_uuid@,
                store.markable_ids_sorted@,
                *self,
                now_ms,
                today,
                match when_parsed { Ok(d) => Ok(*d), Err(m) => Err(m@) },
                match deadline_parsed { Ok(d) => Ok(*d), Err(m) => Err(m@) },
                no_color,
            ));
            lemma_schedule_start(
                p,
                store.tasks_by_uuid@,
                store.markable_ids_sorted@,
                *self,
                now_ms,
                today,
                match when_parsed { Ok(d) => Ok(*d), Err(m) => Err(m@) },
                match deadline_parsed { Ok(d) => Ok(*d), Err(m) => Err(m@) },
                no_color,
            );
        }
        p
    }

    /// What `schedule` does at `now_ms` on the day `today`: it reads the
    /// days of `--when` and `--deadline` in local time.
    pub fn plan(&self, store: &ThingsStore, now_ms: i64, today: i64, no_color: bool) -> (p: CommandPlan)
        requires
            store.wf(),
        ensures
            exists|wp: Result<i64, Seq<char>>, dp: Result<i64, Seq<char>>|
                when_day_ok(self.when, wp)
                && (self.deadline_date matches Some(d) ==> day_result_ok(d@, "--deadline"@, dp))
                && schedule_outcome(p, store.tasks_by_uuid@, store.markable_ids_sorted@, *self, now_ms, today, wp, dp, no_color),
            p.changes matches Some(w) ==> forall|k: Seq<char>| #[trigger] w@.contains_key(k) ==> (self.when matches Some(x) ==> (
                when_word(x@) == "today"@ ==> {
                    let props = w@[k].properties@;
                    &&& props.contains_key("st"@) && props["st"@] == int_value(task_start_code(TaskStart::Anytime) as i64)
                    &&& props.contains_key("sr"@) && props["sr"@] == int_value(today)
                    &&& props.contains_key("sb"@) && props["sb"@] == int_value(0)
                })),
    {
        let wp: Result<i64, String> = match &self.when {
            Some(w) => {
                let t = trim(w.as_str());
                let l = to_lowercase(t.as_str());
                if !same_text(l.as_str(), "anytime") && !same_text(l.as_str(), "today")
                    && !same_text(l.as_str(), "evening") && !same_text(l.as_str(), "someday") {
                    match parse_day(Some(t.as_str()), "--when") {
                        Ok(Some(d)) => Ok(d),
                        Ok(None) => Err(String::new()),
                        Err(m) => Err(m),
                    }
                } else {
                    Err(String::new())
                }
            },
            None => Err(String::new()),
        };
        let dp: Result<i64, String> = match &self.deadline_date {
            Some(d) => match parse_day(Some(d.as_str()), "--deadline") {
                Ok(Some(x)) => Ok(x),
                Ok(None) => Err(String::new()),
                Err(m) => Err(m),
            },
            None => Err(String::new()),
        };
        let p = self.plan_with(store, now_ms, today, &wp, &dp, no_color);
        proof {
            let wv: Result<i64, Seq<char>> = match wp { Ok(d) => Ok(d), Err(m) => Err(m@) };
            let dv: Result<i64, Seq<char>> = match dp { Ok(d) => Ok(d), Err(m) => Err(m@) };
            assert(when_day_ok(self.when, wv)
                && (self.deadline_date matches Some(d) ==> day_result_ok(d@, "--deadline"@, dv))
                && schedule_outcome(p, store.tasks_by_uuid@, store.markable_ids_sorted@, *self, now_ms, today, wv, dv, no_color));
        }
        p
    }
}

} // verus!
