//! `new`: create a task in a container, with its place among its siblings
//! and, for a task that starts today, its place in Today.

use vstd::prelude::*;
use crate::commands::{
    CommandPlan, str_is, strs_are, json_str1, json_strs, object_is, reports_only, report_one,
    lemma_prop_keys_distinct,
};
use crate::commands::mark::done_line_text;
use crate::common::{tag_ids_from, resolve_tag_ids, note_value, task6_note, parse_day, lemma_tag_ids_msg, invalid_day_text, ymd_parsed, near_day};
use crate::lookup::lemma_resolved_in;
use crate::prefixes::id_set;
use crate::lookup::{resolved, deref_opt};
use crate::store::Area;
use crate::text::{trimmed, trim, eq_ascii_ci, eq_ignore_ascii_case, comma_tokens, concat};
use crate::wire::{EntityType, OperationType, WireObject, entity_of};
use crate::json::{JsonValue, int_value, int_of, str_of};
use crate::keymap::KeyMap;
use crate::props::{Props, prop, first_of, prop_str_list, opt_view};
use crate::store::Task;
use crate::text::{owned, signed_decimal, signed_decimal_string, views, same_text};
use crate::things::{ThingsStore, eff_project, eff_area};
use crate::wire::{TaskType, TaskStatus, TaskStart, task_start_code};
use crate::sorting::{SortKey, text_lt, text_less, lemma_text_order, permutes, is_perm_map, hits};
use crate::query::{Query, select, shows, ranked};
use crate::store::task_is_today;

verus! {

/// Half of `s`, rounded toward zero (`/ 2` on an `i32`).
pub open spec fn half_toward_zero(s: i32) -> i32 {
    if s >= 0 {
        (s / 2) as i32
    } else {
        (-((-(s as int)) / 2)) as i32
    }
}

pub(crate) fn half(s: i32) -> (r: i32)
    ensures
        r == half_toward_zero(s),
{
    if s >= 0 {
        ((s as u32) / 2) as i32
    } else {
        let m: u64 = (-(s as i64)) as u64;
        (-((m / 2) as i64)) as i32
    }
}

/// The index of position `pos` when a list is renumbered with stride 1024.
pub open spec fn slot_ix(pos: int) -> i32 {
    ((pos + 1) * 1024) as i32
}

pub(crate) fn slot(pos: usize) -> (r: i32)
    ensures
        r == slot_ix(pos as int),
{
    (((pos as i128) + 1) * 1024) as i32
}

/// The index a new entry gets at position `at` of a list with indices `ix`
/// when it fits between its neighbours; `None` when the list is renumbered.
/// (Index arithmetic wraps around as `i32` arithmetic does.)
pub open spec fn gap_ix(ix: Seq<i32>, at: int) -> Option<i32> {
    if at == 0 && at == ix.len() {
        Some(0)
    } else if at == 0 {
        Some(ix[0].wrapping_sub(1))
    } else if at == ix.len() {
        Some(ix[at - 1].wrapping_add(1))
    } else if ix[at - 1].wrapping_add(1) < ix[at] {
        Some(half_toward_zero(ix[at - 1].wrapping_add(ix[at])))
    } else {
        None
    }
}

/// The index a new entry gets at position `at`.
pub open spec fn new_ix(ix: Seq<i32>, at: int) -> i32 {
    match gap_ix(ix, at) {
        Some(v) => v,
        None => slot_ix(at),
    }
}

/// The position of entry `j` once an entry is inserted at `at`.
pub open spec fn moved_slot(j: int, at: int) -> int {
    if j < at {
        j
    } else {
        j + 1
    }
}

/// The renumbered entries among the first `n`: each whose index differs from
/// its new slot, with that slot's index.
pub open spec fn ix_updates(ix: Seq<i32>, at: int, n: int) -> Seq<(int, i32)>
    decreases n,
{
    if n <= 0 {
        seq![]
    } else {
        let r = ix_updates(ix, at, n - 1);
        let t = slot_ix(moved_slot(n - 1, at));
        if ix[n - 1] != t {
            r.push((n - 1, t))
        } else {
            r
        }
    }
}

/// The indices of a list of tasks.
pub open spec fn indices(ts: Seq<&Task>) -> Seq<i32> {
    ts.map_values(|t: &Task| t.index)
}

/// The index after the updates of the entry at `j` of a list.
pub open spec fn final_ix(ix: Seq<i32>, at: int, j: int) -> i32 {
    match gap_ix(ix, at) {
        Some(_) => ix[j],
        None => slot_ix(moved_slot(j, at)),
    }
}

/// The index for an entry inserted at position `insert_at` of `ordered`, and
/// the entries renumbered to make room (`plan_ix_insert`): id, new index and
/// entity of each.
pub fn plan_ix_insert(ordered: &Vec<&Task>, insert_at: usize) -> (r: (i32, Vec<(String, i32, String)>))
    requires
        insert_at <= ordered@.len(),
    ensures
        r.0 == new_ix(indices(ordered@), insert_at as int),
        gap_ix(indices(ordered@), insert_at as int) is Some ==> r.1@.len() == 0,
        gap_ix(indices(ordered@), insert_at as int) is None ==> ({
            let u = ix_updates(indices(ordered@), insert_at as int, ordered@.len() as int);
            &&& r.1@.len() == u.len()
            &&& forall|k: int| 0 <= k < u.len() ==> {
                &&& 0 <= #[trigger] u[k].0 < ordered@.len()
                &&& r.1@[k].0@ == ordered@[u[k].0].uuid@
                &&& r.1@[k].1 == u[k].1
                &&& r.1@[k].2 == ordered@[u[k].0].entity
            }
        }),
{
    let ghost ix = indices(ordered@);
    let n = ordered.len();
    let mut updates: Vec<(String, i32, String)> = Vec::new();
    if insert_at == 0 && n == 0 {
        return (0, updates);
    }
    if insert_at == 0 {
        return (ordered[0].index.wrapping_sub(1), updates);
    }
    if insert_at == n {
        return (ordered[n - 1].index.wrapping_add(1), updates);
    }
    let prev = ordered[insert_at - 1].index;
    let next = ordered[insert_at].index;
    if prev.wrapping_add(1) < next {
        return (half(prev.wrapping_add(next)), updates);
    }
    let mut j: usize = 0;
    while j < n
        invariant
            n == ordered@.len(),
            ix == indices(ordered@),
            0 < insert_at < n,
            j <= n,
            ({
                let u = ix_updates(ix, insert_at as int, j as int);
                &&& updates@.len() == u.len()
                &&& forall|k: int| 0 <= k < u.len() ==> {
                    &&& 0 <= #[trigger] u[k].0 < j
                    &&& updates@[k].0@ == ordered@[u[k].0].uuid@
                    &&& updates@[k].1 == u[k].1
                    &&& updates@[k].2 == ordered@[u[k].0].entity
                }
            }),
        decreases n - j,
    {
        let pos: usize = if j < insert_at { j } else { j + 1 };
        let target = slot(pos);
        let entry = ordered[j];
        proof {
            assert(ix[j as int] == entry.index);
        }
        if entry.index != target {
            updates.push((entry.uuid.clone(), target, entry.entity.clone()));
        }
        j += 1;
    }
    (slot(insert_at), updates)
}

/// Where a new entry lands: with sorted indices and no index arithmetic
/// leaving the `i32` range, its index comes after every entry before
/// position `at` and before every entry from `at` on, counting the entries
/// renumbered to make room.
pub proof fn lemma_new_ix_in_place(ix: Seq<i32>, at: int)
    requires
        0 <= at <= ix.len(),
        forall|a: int, b: int| 0 <= a <= b < ix.len() ==> #[trigger] ix[a] <= #[trigger] ix[b],
        at == 0 && ix.len() > 0 ==> ix[0] > i32::MIN,
        at == ix.len() && at > 0 ==> ix[at - 1] < i32::MAX,
        0 < at < ix.len() ==> ix[at - 1] < i32::MAX && i32::MIN <= ix[at - 1] + ix[at] <= i32::MAX,
        (ix.len() + 1) * 1024 <= i32::MAX,
    ensures
        forall|j: int| 0 <= j < at ==> #[trigger] final_ix(ix, at, j) < new_ix(ix, at),
        forall|j: int| at <= j < ix.len() ==> new_ix(ix, at) < #[trigger] final_ix(ix, at, j),
{
    assert forall|p: int| 0 <= p <= ix.len() implies #[trigger] slot_ix(p) == (p + 1) * 1024 by {
        assert(0 < (p + 1) * 1024 <= i32::MAX) by (nonlinear_arith)
            requires
                0 <= p <= ix.len(),
                (ix.len() + 1) * 1024 <= i32::MAX,
        ;
    }
    if gap_ix(ix, at) is Some {
        if 0 < at < ix.len() && ix[at - 1].wrapping_add(1) < ix[at] {
            let s = ix[at - 1] + ix[at];
            assert(ix[at - 1].wrapping_add(ix[at]) == s);
            assert(ix[at - 1] < half_toward_zero(s as i32) < ix[at]);
        }
    } else {
        assert forall|j: int| at <= j < ix.len() implies new_ix(ix, at) < #[trigger] final_ix(ix, at, j) by {
            assert(slot_ix(at) < slot_ix(j + 1));
        }
    }
}

/// The `xx` value of a new task: an empty conflict-override object.
pub open spec fn overrides_ok(v: JsonValue) -> bool {
    &&& v matches JsonValue::Object(es)
    &&& es@.len() == 2
    &&& es@[0].0@ == "_t"@
    &&& str_is(es@[0].1, "oo"@)
    &&& es@[1].0@ == "sn"@
    &&& es@[1].1 matches JsonValue::Object(inner) && inner@.len() == 0
}

/// The properties every new task starts with (`base_new_props`).
pub open spec fn base_props_ok(m: Map<Seq<char>, JsonValue>, title: Seq<char>, now_ms: i64) -> bool {
    &&& m.dom() =~= set!["tt"@, "tp"@, "ss"@, "st"@, "tr"@, "cd"@, "md"@, "nt"@, "xx"@, "rmd"@, "rp"@, "ix"@]
    &&& str_is(m["tt"@], title)
    &&& m["tp"@] == int_value(0)
    &&& m["ss"@] == int_value(0)
    &&& m["st"@] == int_value(0)
    &&& m["tr"@] == JsonValue::Bool(false)
    &&& m["cd"@] == JsonValue::Millis(now_ms)
    &&& m["md"@] == JsonValue::Millis(now_ms)
    &&& m["nt"@] == JsonValue::Null
    &&& overrides_ok(m["xx"@])
    &&& m["rmd"@] == JsonValue::Null
    &&& m["rp"@] == JsonValue::Null
    &&& m["ix"@] == int_value(0)
}

/// The properties of a new to-do titled `title`, created at `now_ms`.
pub fn base_new_props(title: &str, now_ms: i64) -> (p: KeyMap<JsonValue>)
    ensures
        p.wf(),
        base_props_ok(p@, title@, now_ms),
{
    let mut p: KeyMap<JsonValue> = KeyMap::new();
    p.insert(owned("tt"), JsonValue::string(title));
    p.insert(owned("tp"), JsonValue::integer(0));
    p.insert(owned("ss"), JsonValue::integer(0));
    p.insert(owned("st"), JsonValue::integer(0));
    p.insert(owned("tr"), JsonValue::Bool(false));
    p.insert(owned("cd"), JsonValue::Millis(now_ms));
    p.insert(owned("md"), JsonValue::Millis(now_ms));
    p.insert(owned("nt"), JsonValue::Null);
    let mut xx: Vec<(String, JsonValue)> = Vec::new();
    xx.push((owned("_t"), JsonValue::string("oo")));
    xx.push((owned("sn"), JsonValue::Object(Vec::new())));
    p.insert(owned("xx"), JsonValue::Object(xx));
    p.insert(owned("rmd"), JsonValue::Null);
    p.insert(owned("rp"), JsonValue::Null);
    p.insert(owned("ix"), JsonValue::integer(0));
    proof {
        reveal_strlit("tt");
        reveal_strlit("tp");
        reveal_strlit("ss");
        reveal_strlit("st");
        reveal_strlit("tr");
        reveal_strlit("cd");
        reveal_strlit("md");
        reveal_strlit("nt");
        reveal_strlit("xx");
        reveal_strlit("rmd");
        reveal_strlit("rp");
        reveal_strlit("ix");
        assert("tt"@ != "tp"@) by { assert("tt"@[1] != "tp"@[1]); }
        assert("tt"@ != "ss"@) by { assert("tt"@[0] != "ss"@[0]); }
        assert("tt"@ != "st"@) by { assert("tt"@[0] != "st"@[0]); }
        assert("tt"@ != "tr"@) by { assert("tt"@[1] != "tr"@[1]); }
        assert("tt"@ != "cd"@) by { assert("tt"@[0] != "cd"@[0]); }
        assert("tt"@ != "md"@) by { assert("tt"@[0] != "md"@[0]); }
        assert("tt"@ != "nt"@) by { assert("tt"@[0] != "nt"@[0]); }
        assert("tt"@ != "xx"@) by { assert("tt"@[0] != "xx"@[0]); }
        assert("tt"@ != "rmd"@) by { assert("tt"@.len() != "rmd"@.len()); }
        assert("tt"@ != "rp"@) by { assert("tt"@[0] != "rp"@[0]); }
        assert("tt"@ != "ix"@) by { assert("tt"@[0] != "ix"@[0]); }
        assert("tp"@ != "ss"@) by { assert("tp"@[0] != "ss"@[0]); }
        assert("tp"@ != "st"@) by { assert("tp"@[0] != "st"@[0]); }
        assert("tp"@ != "tr"@) by { assert("tp"@[1] != "tr"@[1]); }
        assert("tp"@ != "cd"@) by { assert("tp"@[0] != "cd"@[0]); }
        assert("tp"@ != "md"@) by { assert("tp"@[0] != "md"@[0]); }
        assert("tp"@ != "nt"@) by { assert("tp"@[0] != "nt"@[0]); }
        assert("tp"@ != "xx"@) by { assert("tp"@[0] != "xx"@[0]); }
        assert("tp"@ != "rmd"@) by { assert("tp"@.len() != "rmd"@.len()); }
        assert("tp"@ != "rp"@) by { assert("tp"@[0] != "rp"@[0]); }
        assert("tp"@ != "ix"@) by { assert("tp"@[0] != "ix"@[0]); }
        assert("ss"@ != "st"@) by { assert("ss"@[1] != "st"@[1]); }
        assert("ss"@ != "tr"@) by { assert("ss"@[0] != "tr"@[0]); }
        assert("ss"@ != "cd"@) by { assert("ss"@[0] != "cd"@[0]); }
        assert("ss"@ != "md"@) by { assert("ss"@[0] != "md"@[0]); }
        assert("ss"@ != "nt"@) by { assert("ss"@[0] != "nt"@[0]); }
        assert("ss"@ != "xx"@) by { assert("ss"@[0] != "xx"@[0]); }
        assert("ss"@ != "rmd"@) by { assert("ss"@.len() != "rmd"@.len()); }
        assert("ss"@ != "rp"@) by { assert("ss"@[0] != "rp"@[0]); }
        assert("ss"@ != "ix"@) by { assert("ss"@[0] != "ix"@[0]); }
        assert("st"@ != "tr"@) by { assert("st"@[0] != "tr"@[0]); }
        assert("st"@ != "cd"@) by { assert("st"@[0] != "cd"@[0]); }
        assert("st"@ != "md"@) by { assert("st"@[0] != "md"@[0]); }
        assert("st"@ != "nt"@) by { assert("st"@[0] != "nt"@[0]); }
        assert("st"@ != "xx"@) by { assert("st"@[0] != "xx"@[0]); }
        assert("st"@ != "rmd"@) by { assert("st"@.len() != "rmd"@.len()); }
        assert("st"@ != "rp"@) by { assert("st"@[0] != "rp"@[0]); }
        assert("st"@ != "ix"@) by { assert("st"@[0] != "ix"@[0]); }
        assert("tr"@ != "cd"@) by { assert("tr"@[0] != "cd"@[0]); }
        assert("tr"@ != "md"@) by { assert("tr"@[0] != "md"@[0]); }
        assert("tr"@ != "nt"@) by { assert("tr"@[0] != "nt"@[0]); }
        assert("tr"@ != "xx"@) by { assert("tr"@[0] != "xx"@[0]); }
        assert("tr"@ != "rmd"@) by { assert("tr"@.len() != "rmd"@.len()); }
        assert("tr"@ != "rp"@) by { assert("tr"@[0] != "rp"@[0]); }
        assert("tr"@ != "ix"@) by { assert("tr"@[0] != "ix"@[0]); }
        assert("cd"@ != "md"@) by { assert("cd"@[0] != "md"@[0]); }
        assert("cd"@ != "nt"@) by { assert("cd"@[0] != "nt"@[0]); }
        assert("cd"@ != "xx"@) by { assert("cd"@[0] != "xx"@[0]); }
        assert("cd"@ != "rmd"@) by { assert("cd"@.len() != "rmd"@.len()); }
        assert("cd"@ != "rp"@) by { assert("cd"@[0] != "rp"@[0]); }
        assert("cd"@ != "ix"@) by { assert("cd"@[0] != "ix"@[0]); }
        assert("md"@ != "nt"@) by { assert("md"@[0] != "nt"@[0]); }
        assert("md"@ != "xx"@) by { assert("md"@[0] != "xx"@[0]); }
        assert("md"@ != "rmd"@) by { assert("md"@.len() != "rmd"@.len()); }
        assert("md"@ != "rp"@) by { assert("md"@[0] != "rp"@[0]); }
        assert("md"@ != "ix"@) by { assert("md"@[0] != "ix"@[0]); }
        assert("nt"@ != "xx"@) by { assert("nt"@[0] != "xx"@[0]); }
        assert("nt"@ != "rmd"@) by { assert("nt"@.len() != "rmd"@.len()); }
        assert("nt"@ != "rp"@) by { assert("nt"@[0] != "rp"@[0]); }
        assert("nt"@ != "ix"@) by { assert("nt"@[0] != "ix"@[0]); }
        assert("xx"@ != "rmd"@) by { assert("xx"@.len() != "rmd"@.len()); }
        assert("xx"@ != "rp"@) by { assert("xx"@[0] != "rp"@[0]); }
        assert("xx"@ != "ix"@) by { assert("xx"@[0] != "ix"@[0]); }
        assert("rmd"@ != "rp"@) by { assert("rmd"@.len() != "rp"@.len()); }
        assert("rmd"@ != "ix"@) by { assert("rmd"@.len() != "ix"@.len()); }
        assert("rp"@ != "ix"@) by { assert("rp"@[0] != "ix"@[0]); }
    }
    p
}

/// The text of an optional id, or empty.
pub open spec fn or_empty(o: Option<String>) -> Seq<char> {
    match o {
        Some(s) => s@,
        None => seq![],
    }
}

/// The list a task sorts in (`task_bucket`): a heading's project, a
/// project's area, a to-do's project and heading, a to-do's area and start,
/// or the start of a loose to-do.
pub open spec fn bucket_of(tasks: Map<Seq<char>, Task>, t: Task) -> Seq<Seq<char>> {
    if t.item_type == TaskType::Heading {
        seq!["heading"@, or_empty(t.project)]
    } else if t.item_type == TaskType::Project {
        seq!["project"@, or_empty(t.area)]
    } else {
        match eff_project(tasks, t) {
            Some(p) => seq!["task-project"@, p, or_empty(t.action_group)],
            None => match eff_area(tasks, t) {
                Some(a) => seq!["task-area"@, a, signed_decimal(task_start_code(t.start) as int)],
                None => seq!["task-root"@, signed_decimal(task_start_code(t.start) as int)],
            },
        }
    }
}

fn text_or_empty(o: &Option<String>) -> (r: String)
    ensures
        r@ == or_empty(*o),
{
    match o {
        Some(s) => s.clone(),
        None => String::new(),
    }
}

/// The list a task sorts in.
pub fn task_bucket(task: &Task, store: &ThingsStore) -> (r: Vec<String>)
    requires
        store.wf(),
    ensures
        views(r@) == bucket_of(store.tasks_by_uuid@, *task),
{
    let mut r: Vec<String> = Vec::new();
    if task.is_heading() {
        r.push(owned("heading"));
        r.push(text_or_empty(&task.project));
    } else if task.is_project() {
        r.push(owned("project"));
        r.push(text_or_empty(&task.area));
    } else {
        match store.effective_project_uuid(task) {
            Some(p) => {
                r.push(owned("task-project"));
                r.push(p);
                r.push(text_or_empty(&task.action_group));
            },
            None => {
                let code = i32::from(task.start);
                match store.effective_area_uuid(task) {
                    Some(a) => {
                        r.push(owned("task-area"));
                        r.push(a);
                        r.push(signed_decimal_string(code as i64));
                    },
                    None => {
                        r.push(owned("task-root"));
                        r.push(signed_decimal_string(code as i64));
                    },
                }
            },
        }
    }
    proof {
        assert(views(r@) =~= bucket_of(store.tasks_by_uuid@, *task));
    }
    r
}

/// The first string of a list property.
pub open spec fn first_str(p: Props, key: Seq<char>) -> Option<Seq<char>> {
    match prop(p, key) {
        Some(JsonValue::Array(xs)) => if xs@.len() > 0 {
            str_of(xs@[0])
        } else {
            None
        },
        _ => None,
    }
}

/// The start code of new-task properties (0 when absent).
pub open spec fn props_start(p: Props) -> i64 {
    match prop(p, "st"@) {
        Some(v) => match int_of(v) {
            Some(x) => x,
            None => 0,
        },
        None => 0,
    }
}

/// The list new-task properties put the task in (`props_bucket`).
pub open spec fn props_bucket_of(p: Props) -> Seq<Seq<char>> {
    match first_str(p, "pr"@) {
        Some(pr) => seq!["task-project"@, pr, seq![]],
        None => match first_str(p, "ar"@) {
            Some(a) => seq!["task-area"@, a, signed_decimal(props_start(p) as int)],
            None => seq!["task-root"@, signed_decimal(props_start(p) as int)],
        },
    }
}

fn first_str_of(p: &KeyMap<JsonValue>, key: &str) -> (r: Option<String>)
    requires
        p.wf(),
    ensures
        opt_view(r) == first_str(p@, key@),
{
    match p.get(key) {
        Some(JsonValue::Array(xs)) => {
            if xs.len() > 0 {
                match xs[0].as_str() {
                    Some(s) => Some(s.clone()),
                    None => None,
                }
            } else {
                None
            }
        },
        _ => None,
    }
}

fn start_of(p: &KeyMap<JsonValue>) -> (r: i64)
    requires
        p.wf(),
    ensures
        r == props_start(p@),
{
    match p.get("st") {
        Some(v) => match v.as_i64() {
            Some(x) => x,
            None => 0,
        },
        None => 0,
    }
}

/// The list new-task properties put the task in.
pub fn props_bucket(props: &KeyMap<JsonValue>) -> (r: Vec<String>)
    requires
        props.wf(),
    ensures
        views(r@) == props_bucket_of(props@),
{
    let mut r: Vec<String> = Vec::new();
    match first_str_of(props, "pr") {
        Some(pr) => {
            r.push(owned("task-project"));
            r.push(pr);
            r.push(String::new());
        },
        None => match first_str_of(props, "ar") {
            Some(a) => {
                r.push(owned("task-area"));
                r.push(a);
                r.push(signed_decimal_string(start_of(props)));
            },
            None => {
                r.push(owned("task-root"));
                r.push(signed_decimal_string(start_of(props)));
            },
        },
    }
    proof {
        assert(views(r@) =~= props_bucket_of(props@));
    }
    r
}

/// Sibling order: by index, then by id.
pub open spec fn index_id_lt(a: Task, b: Task) -> bool {
    a.index < b.index || (a.index == b.index && text_lt(a.uuid@, b.uuid@))
}

/// `s` is in strictly increasing sibling order.
pub open spec fn sorted_index_id(s: Seq<&Task>) -> bool {
    forall|i: int, j: int| 0 <= i < j < s.len() ==> index_id_lt(*#[trigger] s[i], *#[trigger] s[j])
}

proof fn lemma_index_id_order(a: Task, b: Task, c: Task)
    ensures
        !index_id_lt(a, a),
        a.uuid@ != b.uuid@ ==> (index_id_lt(a, b) || index_id_lt(b, a)),
        !(index_id_lt(a, b) && index_id_lt(b, a)),
        index_id_lt(a, b) && index_id_lt(b, c) ==> index_id_lt(a, c),
{
    lemma_text_order(a.uuid@, b.uuid@, c.uuid@);
    lemma_text_order(b.uuid@, a.uuid@, c.uuid@);
}

fn index_id_less(a: &Task, b: &Task) -> (r: bool)
    ensures
        r == index_id_lt(*a, *b),
{
    a.index < b.index || (a.index == b.index && text_less(a.uuid.as_str(), b.uuid.as_str()))
}

/// Sorts tasks with distinct ids into sibling order.
fn sort_index_id<'a>(v: Vec<&'a Task>) -> (r: Vec<&'a Task>)
    requires
        forall|a: int, b: int| 0 <= a < v@.len() && 0 <= b < v@.len() && a != b ==> (*#[trigger] v@[a]).uuid@ != (*#[trigger] v@[b]).uuid@,
    ensures
        sorted_index_id(r@),
        permutes(r@, v@),
{
    let ghost orig = v@;
    let ghost mut perm: Seq<int> = Seq::empty();
    let mut rest = v;
    let mut out: Vec<&'a Task> = Vec::new();
    proof {
        assert(rest@ =~= orig.subrange(0, orig.len() as int));
    }
    while rest.len() > 0
        invariant
            forall|a: int, b: int| 0 <= a < orig.len() && 0 <= b < orig.len() && a != b ==> (*#[trigger] orig[a]).uuid@ != (*#[trigger] orig[b]).uuid@,
            rest@.len() <= orig.len(),
            rest@ == orig.subrange(orig.len() - rest@.len(), orig.len() as int),
            sorted_index_id(out@),
            is_perm_map(perm, out@, orig.take(out@.len() as int)),
            out@.len() == orig.len() - rest@.len(),
        decreases rest@.len(),
    {
        let ghost done = orig.len() - rest@.len();
        let x = rest.remove(0);
        let mut p: usize = out.len();
        while p > 0 && index_id_less(x, out[p - 1])
            invariant
                p <= out@.len(),
                forall|j: int| p <= j < out@.len() ==> index_id_lt(*x, *#[trigger] out@[j]),
            decreases p,
        {
            p -= 1;
        }
        let ghost before = out@;
        out.insert(p, x);
        proof {
            assert(x == orig[done]);
            crate::sorting::lemma_perm_insert(perm, before, orig, p as int, x);
            perm = perm.insert(p as int, before.len() as int);
            if p > 0 {
                // x and its predecessor are different tasks
                let k = perm[p - 1];
                assert(before[p - 1] == orig[k]);
                assert(k != done);
                lemma_index_id_order(*before[p - 1], *x, *x);
            }
            assert(sorted_index_id(out@)) by {
                assert forall|i: int, j: int| 0 <= i < j < out@.len() implies index_id_lt(*#[trigger] out@[i], *#[trigger] out@[j]) by {
                    if i < p && j < p {
                        assert(out@[i] == before[i] && out@[j] == before[j]);
                    } else if i < p && j == p {
                        assert(out@[i] == before[i]);
                        assert(index_id_lt(*before[p - 1], *x));
                        if i < p - 1 {
                            assert(index_id_lt(*before[i], *before[p - 1]));
                            lemma_index_id_order(*before[i], *before[p - 1], *x);
                        }
                    } else if i < p && j > p {
                        assert(out@[i] == before[i] && out@[j] == before[j - 1]);
                    } else if i == p {
                        assert(out@[j] == before[j - 1]);
                    } else {
                        assert(out@[i] == before[i - 1] && out@[j] == before[j - 1]);
                    }
                }
            }
            assert(rest@ =~= orig.subrange(orig.len() - rest@.len(), orig.len() as int));
        }
    }
    proof {
        assert(orig.take(orig.len() as int) =~= orig);
    }
    out
}

pub(crate) fn same_texts(a: &Vec<String>, b: &Vec<String>) -> (r: bool)
    ensures
        r == (views(a@) == views(b@)),
{
    if a.len() != b.len() {
        proof {
            assert(views(a@).len() != views(b@).len());
        }
        return false;
    }
    let mut i: usize = 0;
    while i < a.len()
        invariant
            a@.len() == b@.len(),
            i <= a@.len(),
            forall|k: int| 0 <= k < i ==> #[trigger] a@[k]@ == b@[k]@,
        decreases a@.len() - i,
    {
        if !same_text(a[i].as_str(), b[i].as_str()) {
            proof {
                assert(views(a@)[i as int] != views(b@)[i as int]);
            }
            return false;
        }
        i += 1;
    }
    proof {
        assert(views(a@) =~= views(b@));
    }
    true
}

/// A task among the siblings of a list: open, not trashed, in that list.
pub open spec fn in_bucket(tasks: Map<Seq<char>, Task>, target: Seq<Seq<char>>, t: Task) -> bool {
    &&& !t.trashed
    &&& t.status == TaskStatus::Incomplete
    &&& bucket_of(tasks, t) == target
}

struct BucketQuery<'a> {
    store: &'a ThingsStore,
    target: Vec<String>,
}

impl<'a> Query<Task> for BucketQuery<'a> {
    closed spec fn valid(&self) -> bool {
        self.store.wf()
    }

    closed spec fn admits(&self, t: Task) -> bool {
        in_bucket(self.store.tasks_by_uuid@, views(self.target@), t)
    }

    closed spec fn rank(&self, t: Task) -> SortKey {
        (t.index as i128, 0i128, 0i128)
    }

    fn test(&self, t: &Task) -> (b: bool) {
        if t.trashed || t.status != TaskStatus::Incomplete {
            return false;
        }
        let b = task_bucket(t, self.store);
        same_texts(&b, &self.target)
    }

    fn rank_of(&self, t: &Task) -> (k: SortKey) {
        (t.index as i128, 0, 0)
    }
}

/// A task among the Today siblings of a section (evening or not) for the day `today`.
pub open spec fn in_today_section(t: Task, today: i64, evening: bool) -> bool {
    &&& !t.trashed
    &&& t.status == TaskStatus::Incomplete
    &&& t.start == TaskStart::Anytime
    &&& (task_is_today(t, today) || t.evening)
    &&& t.evening == evening
}

/// Today order: latest today reference first, then by today index, then
/// highest position first.
pub open spec fn today_section_rank(t: Task) -> SortKey {
    (
        (-(match t.today_index_reference {
            Some(r) => r as int,
            None => 0int,
        })) as i128,
        t.today_index as i128,
        (-(t.index as int)) as i128,
    )
}

struct TodaySection {
    today: i64,
    evening: bool,
}

impl Query<Task> for TodaySection {
    closed spec fn valid(&self) -> bool {
        true
    }

    closed spec fn admits(&self, t: Task) -> bool {
        in_today_section(t, self.today, self.evening)
    }

    closed spec fn rank(&self, t: Task) -> SortKey {
        today_section_rank(t)
    }

    fn test(&self, t: &Task) -> (b: bool) {
        !t.trashed && t.status == TaskStatus::Incomplete && t.start == TaskStart::Anytime && (t.is_today(self.today)
            || t.evening) && t.evening == self.evening
    }

    fn rank_of(&self, t: &Task) -> (k: SortKey) {
        let tir: i64 = match t.today_index_reference {
            Some(r) => r,
            None => 0,
        };
        (-(tir as i128), t.today_index as i128, -(t.index as i128))
    }
}

/// The open siblings in a list, in sibling order.
pub(crate) fn bucket_siblings<'a>(store: &'a ThingsStore, target: Vec<String>) -> (r: Vec<&'a Task>)
    requires
        store.wf(),
    ensures
        shows(store.tasks_by_uuid@, |t: Task| in_bucket(store.tasks_by_uuid@, views(target@), t), r@),
        sorted_index_id(r@),
{
    let ghost tv = views(target@);
    let q = BucketQuery { store, target };
    let picked = select(&store.tasks_by_uuid, &q);
    proof {
        assert((|v: Task| q.admits(v)) =~= (|t: Task| in_bucket(store.tasks_by_uuid@, tv, t)));
    }
    let r = sort_index_id(picked);
    proof {
        lemma_shows_permuted(store.tasks_by_uuid@, |t: Task| in_bucket(store.tasks_by_uuid@, tv, t), picked@, r@);
    }
    r
}

/// The open Today tasks of a section, in Today order.
fn today_siblings<'a>(store: &'a ThingsStore, today: i64, evening: bool) -> (r: Vec<&'a Task>)
    requires
        store.wf(),
    ensures
        shows(store.tasks_by_uuid@, |t: Task| in_today_section(t, today, evening), r@),
        ranked(|t: Task| today_section_rank(t), r@),
{
    let q = TodaySection { today, evening };
    let r = select(&store.tasks_by_uuid, &q);
    proof {
        assert((|v: Task| q.admits(v)) =~= (|t: Task| in_today_section(t, today, evening)));
        assert((|v: Task| q.rank(v)) =~= (|t: Task| today_section_rank(t)));
    }
    r
}

/// A reordering of a list shows the same records.
proof fn lemma_shows_permuted(m: Map<Seq<char>, Task>, admits: spec_fn(Task) -> bool, v: Seq<&Task>, r: Seq<&Task>)
    requires
        shows(m, admits, v),
        permutes(r, v),
    ensures
        shows(m, admits, r),
{
    let perm = choose|perm: Seq<int>| is_perm_map(perm, r, v);
    assert forall|k: Seq<char>| #[trigger] m.contains_key(k) && admits(m[k]) implies exists|a: int|
        0 <= a < r.len() && (*#[trigger] r[a]).uuid@ == k by {
        let b = choose|b: int| 0 <= b < v.len() && (*#[trigger] v[b]).uuid@ == k;
        assert(hits(perm, b));
        let a = choose|a: int| 0 <= a < perm.len() && #[trigger] perm[a] == b;
        assert((*r[a]).uuid@ == k);
    }
    assert forall|a: int, b: int| 0 <= a < r.len() && 0 <= b < r.len() && a != b implies (*#[trigger] r[a]).uuid@ != (*#[trigger] r[b]).uuid@ by {
        assert(perm[a] != perm[b]);
    }
    assert forall|a: int| 0 <= a < r.len() implies m.contains_key((*#[trigger] r[a]).uuid@) && m[(*r[a]).uuid@] == *r[a] && admits(*r[a]) by {
        assert(r[a] == v[perm[a]]);
    }
}

/// The arguments of `new`.
pub struct NewArgs {
    pub title: String,
    pub in_target: String,
    pub when: Option<String>,
    pub before_id: Option<String>,
    pub after_id: Option<String>,
    pub notes: String,
    pub tags: Option<String>,
    pub deadline_date: Option<String>,
}

/// Where `--in` puts a new task: its project and area, or why it cannot.
pub open spec fn container_of(
    tasks: Map<Seq<char>, Task>,
    mids: Seq<String>,
    areas: Map<Seq<char>, Area>,
    aids: Seq<String>,
    it: Seq<char>,
) -> Result<(Option<Seq<char>>, Option<Seq<char>>), Seq<char>> {
    if eq_ascii_ci(it, "inbox"@) {
        Ok((None, None))
    } else {
        let pr = resolved(tasks, mids, it, "Item"@).0;
        let ar = resolved(areas, aids, it, "Area"@).0;
        let pu = match pr {
            Some(t) => if t.item_type == TaskType::Project {
                Some(t.uuid@)
            } else {
                None
            },
            None => None,
        };
        let au = match ar {
            Some(a) => Some(a.uuid@),
            None => None,
        };
        if pu is Some && au is Some {
            Err("Ambiguous --in target '"@ + it + "' (matches project and area)."@)
        } else if pr is Some && pu is None {
            Err("--in target must be inbox, a project ID, or an area ID."@)
        } else if pu is Some {
            Ok((pu, None))
        } else if au is Some {
            Ok((None, au))
        } else {
            Err("Container not found: "@ + it)
        }
    }
}

fn resolve_container(store: &ThingsStore, it: &str) -> (r: Result<(Option<String>, Option<String>), String>)
    requires
        store.wf(),
    ensures
        match container_of(store.tasks_by_uuid@, store.markable_ids_sorted@, store.areas_by_uuid@, store.area_ids_sorted@, it@) {
            Ok((p, a)) => r matches Ok((rp, ra)) && opt_view(rp) == p && opt_view(ra) == a,
            Err(m) => r matches Err(x) && x@ == m,
        },
{
    if eq_ignore_ascii_case(it, "inbox") {
        return Ok((None, None));
    }
    let (project, _, _) = store.resolve_mark_identifier(it);
    let (area, _, _) = store.resolve_area_identifier(it);
    let project_uuid: Option<String> = match project {
        Some(t) => if t.is_project() {
            Some(t.uuid.clone())
        } else {
            None
        },
        None => None,
    };
    let area_uuid: Option<String> = match area {
        Some(a) => Some(a.uuid.clone()),
        None => None,
    };
    if project_uuid.is_some() && area_uuid.is_some() {
        return Err(concat(concat("Ambiguous --in target '", it).as_str(), "' (matches project and area)."));
    }
    if project.is_some() && project_uuid.is_none() {
        return Err(owned("--in target must be inbox, a project ID, or an area ID."));
    }
    if project_uuid.is_some() {
        return Ok((project_uuid, None));
    }
    if area_uuid.is_some() {
        return Ok((None, area_uuid));
    }
    Err(concat("Container not found: ", it))
}

/// What `--when` sets: the start, the scheduled day (`null` when cleared) and
/// the today reference; or the message for a day that does not parse.
pub open spec fn when_of(w: Option<Seq<char>>, today: i64, parsed: Result<i64, Seq<char>>) -> Result<
    (Option<i64>, Option<Option<i64>>, Option<i64>),
    Seq<char>,
> {
    match w {
        None => Ok((None, None, None)),
        Some(x) => {
            let t = trimmed(x);
            if eq_ascii_ci(t, "anytime"@) {
                Ok((Some(1), Some(None), None))
            } else if eq_ascii_ci(t, "someday"@) {
                Ok((Some(2), Some(None), None))
            } else if eq_ascii_ci(t, "today"@) {
                Ok((Some(1), Some(Some(today)), Some(today)))
            } else {
                match parsed {
                    Err(m) => Err(m),
                    Ok(d) => Ok((Some(2), Some(Some(d)), Some(d))),
                }
            }
        },
    }
}

/// Whether `--when` names a day rather than a list.
pub open spec fn when_is_day(w: Option<Seq<char>>) -> bool {
    match w {
        None => false,
        Some(x) => {
            let t = trimmed(x);
            !eq_ascii_ci(t, "anytime"@) && !eq_ascii_ci(t, "someday"@) && !eq_ascii_ci(t, "today"@)
        },
    }
}

fn resolve_when(w: &Option<String>, today: i64, parsed: &Result<i64, String>) -> (r: Result<(Option<i64>, Option<Option<i64>>, Option<i64>), String>)
    ensures
        match when_of(opt_view(*w), today, match parsed { Ok(d) => Ok(*d), Err(m) => Err(m@) }) {
            Ok(v) => r == Ok::<(Option<i64>, Option<Option<i64>>, Option<i64>), String>(v),
            Err(m) => r matches Err(x) && x@ == m,
        },
{
    match w {
        None => Ok((None, None, None)),
        Some(x) => {
            let t = trim(x.as_str());
            if eq_ignore_ascii_case(t.as_str(), "anytime") {
                Ok((Some(1), Some(None), None))
            } else if eq_ignore_ascii_case(t.as_str(), "someday") {
                Ok((Some(2), Some(None), None))
            } else if eq_ignore_ascii_case(t.as_str(), "today") {
                Ok((Some(1), Some(Some(today)), Some(today)))
            } else {
                match parsed {
                    Err(m) => Err(m.clone()),
                    Ok(d) => Ok((Some(2), Some(Some(*d)), Some(*d))),
                }
            }
        },
    }
}

/// The fields of a new task, before they become properties.
pub struct NewFields {
    pub project: Option<String>,
    pub area: Option<String>,
    pub start: i64,
    pub scheduled: Option<Option<i64>>,
    pub today_ref: Option<i64>,
    pub tags: Option<Vec<String>>,
    pub deadline: Option<i64>,
    pub index: i32,
    pub today_index: Option<i32>,
    pub evening: Option<i32>,
}

/// The list the fields put the new task in (`props_bucket` of its properties).
pub open spec fn fields_bucket(f: NewFields) -> Seq<Seq<char>> {
    match f.project {
        Some(p) => seq!["task-project"@, p@, seq![]],
        None => match f.area {
            Some(a) => seq!["task-area"@, a@, signed_decimal(f.start as int)],
            None => seq!["task-root"@, signed_decimal(f.start as int)],
        },
    }
}

/// Whether the fields put the new task in Today (`is_today_from_props`).
pub open spec fn fields_today(f: NewFields, today: i64) -> bool {
    f.start == 1 && (f.scheduled matches Some(Some(d)) && d <= today)
}

fn fields_bucket_vec(f: &NewFields) -> (r: Vec<String>)
    ensures
        views(r@) == fields_bucket(*f),
{
    let mut r: Vec<String> = Vec::new();
    match &f.project {
        Some(p) => {
            r.push(owned("task-project"));
            r.push(p.clone());
            r.push(String::new());
        },
        None => match &f.area {
            Some(a) => {
                r.push(owned("task-area"));
                r.push(a.clone());
                r.push(signed_decimal_string(f.start));
            },
            None => {
                r.push(owned("task-root"));
                r.push(signed_decimal_string(f.start));
            },
        },
    }
    proof {
        assert(views(r@) =~= fields_bucket(*f));
    }
    r
}

/// The properties of the new task: the base ones, with the fields on top.
pub open spec fn new_props_ok(m: Map<Seq<char>, JsonValue>, f: NewFields, title: Seq<char>, note: Option<Seq<char>>, now_ms: i64) -> bool {
    &&& str_is(m["tt"@], title)
    &&& m["tp"@] == int_value(0)
    &&& m["ss"@] == int_value(0)
    &&& m["tr"@] == JsonValue::Bool(false)
    &&& m["cd"@] == JsonValue::Millis(now_ms)
    &&& m["md"@] == JsonValue::Millis(now_ms)
    &&& overrides_ok(m["xx"@])
    &&& m["rmd"@] == JsonValue::Null
    &&& m["rp"@] == JsonValue::Null
    &&& m["st"@] == int_value(f.start)
    &&& m["ix"@] == int_value(f.index as i64)
    &&& match note {
        Some(text) => m["nt"@] matches JsonValue::Object(es) && note_value(text, es@),
        None => m["nt"@] == JsonValue::Null,
    }
    &&& match f.project {
        Some(p) => m.contains_key("pr"@) && strs_are(m["pr"@], seq![p@]),
        None => !m.contains_key("pr"@),
    }
    &&& match f.area {
        Some(a) => m.contains_key("ar"@) && strs_are(m["ar"@], seq![a@]),
        None => !m.contains_key("ar"@),
    }
    &&& match f.scheduled {
        Some(Some(d)) => m.contains_key("sr"@) && m["sr"@] == int_value(d),
        Some(None) => m.contains_key("sr"@) && m["sr"@] == JsonValue::Null,
        None => !m.contains_key("sr"@),
    }
    &&& match f.today_ref {
        Some(d) => m.contains_key("tir"@) && m["tir"@] == int_value(d),
        None => !m.contains_key("tir"@),
    }
    &&& match f.tags {
        Some(ids) => m.contains_key("tg"@) && strs_are(m["tg"@], views(ids@)),
        None => !m.contains_key("tg"@),
    }
    &&& match f.deadline {
        Some(d) => m.contains_key("dd"@) && m["dd"@] == int_value(d),
        None => !m.contains_key("dd"@),
    }
    &&& match f.today_index {
        Some(i) => m.contains_key("ti"@) && m["ti"@] == int_value(i as i64),
        None => !m.contains_key("ti"@),
    }
    &&& match f.evening {
        Some(i) => m.contains_key("sb"@) && m["sb"@] == int_value(i as i64),
        None => !m.contains_key("sb"@),
    }
    &&& m.dom().finite()
    &&& forall|k: Seq<char>| #[trigger] m.contains_key(k) ==> set![
        "tt"@, "tp"@, "ss"@, "st"@, "tr"@, "cd"@, "md"@, "nt"@, "xx"@, "rmd"@, "rp"@, "ix"@,
        "pr"@, "ar"@, "sr"@, "tir"@, "tg"@, "dd"@, "ti"@, "sb"@
    ].contains(k)
}

/// The properties of the new task.
#[verifier::rlimit(100)]
fn new_props(f: &NewFields, title: &str, note: &Option<String>, now_ms: i64) -> (p: KeyMap<JsonValue>)
    ensures
        p.wf(),
        new_props_ok(p@, *f, title@, opt_view(*note), now_ms),
{
    proof {
        lemma_prop_keys_distinct();
    }
    let mut p = base_new_props(title, now_ms);
    p.insert(owned("st"), JsonValue::integer(f.start));
    p.insert(owned("ix"), JsonValue::integer(f.index as i64));
    match note {
        Some(text) => {
            p.insert(owned("nt"), task6_note(text.as_str()));
        },
        None => {},
    }
    match &f.project {
        Some(x) => {
            p.insert(owned("pr"), json_str1(x.as_str()));
        },
        None => {},
    }
    match &f.area {
        Some(x) => {
            p.insert(owned("ar"), json_str1(x.as_str()));
        },
        None => {},
    }
    match f.scheduled {
        Some(Some(d)) => {
            p.insert(owned("sr"), JsonValue::integer(d));
        },
        Some(None) => {
            p.insert(owned("sr"), JsonValue::Null);
        },
        None => {},
    }
    match f.today_ref {
        Some(d) => {
            p.insert(owned("tir"), JsonValue::integer(d));
        },
        None => {},
    }
    match &f.tags {
        Some(ids) => {
            p.insert(owned("tg"), json_strs(ids));
        },
        None => {},
    }
    match f.deadline {
        Some(d) => {
            p.insert(owned("dd"), JsonValue::integer(d));
        },
        None => {},
    }
    match f.today_index {
        Some(i) => {
            p.insert(owned("ti"), JsonValue::integer(i as i64));
        },
        None => {},
    }
    match f.evening {
        Some(i) => {
            p.insert(owned("sb"), JsonValue::integer(i as i64));
        },
        None => {},
    }
    p
}

/// The position right before (`before`) or after task `a` in the list `s`.
pub open spec fn anchor_slot(s: Seq<&Task>, a: Task, before: bool) -> int {
    let k = choose|k: int| 0 <= k < s.len() && (*s[k]).uuid@ == a.uuid@;
    if before {
        k
    } else {
        k + 1
    }
}

/// The today reference and today index for a new Today task at position
/// `at` of the Today section `ts`: those of its successor (one lower), else
/// of its predecessor (one higher), else today and 0.
pub open spec fn today_slot(ts: Seq<&Task>, at: int, today: i64) -> (i64, i32) {
    if at < ts.len() {
        (
            match ts[at].today_index_reference {
                Some(r) => r,
                None => today,
            },
            ts[at].today_index.wrapping_sub(1),
        )
    } else if at > 0 {
        (
            match ts[at - 1].today_index_reference {
                Some(r) => r,
                None => today,
            },
            ts[at - 1].today_index.wrapping_add(1),
        )
    } else {
        (today, 0)
    }
}

/// The update that renumbers one sibling.
pub open spec fn renumber_ok(o: WireObject, t: Task, ix: i32, now_ms: i64) -> bool {
    object_is(
        o,
        OperationType::Update,
        Some(entity_of(t.entity)),
        Map::empty().insert("ix"@, int_value(ix as i64)).insert("md"@, JsonValue::Millis(now_ms)),
    )
}

/// The insertion point in a list: right before or after the anchor when it
/// is in the list, else the top.
pub open spec fn list_slot(tasks: Map<Seq<char>, Task>, anchor: Option<Task>, before: bool, target: Seq<Seq<char>>, s: Seq<&Task>) -> int {
    match anchor {
        Some(a) => if bucket_of(tasks, a) == target {
            anchor_slot(s, a, before)
        } else {
            0
        },
        None => 0,
    }
}

/// The insertion point in the Today section: at the anchor when it is there.
pub open spec fn section_slot(ts: Seq<&Task>, anchor: Option<Task>, a_today: bool, before: bool) -> int {
    if a_today && (exists|k: int| 0 <= k < ts.len() && (*ts[k]).uuid@ == anchor.unwrap().uuid@) {
        anchor_slot(ts, anchor.unwrap(), before)
    } else {
        0
    }
}

/// The changes and report of a placed new task: the task itself under its
/// new id, and the renumbered siblings `upd` of the list `s`.
pub open spec fn new_changes(
    p: CommandPlan,
    s: Seq<&Task>,
    upd: Seq<(int, i32)>,
    f: NewFields,
    title: Seq<char>,
    note: Option<Seq<char>>,
    now_ms: i64,
    new_uuid: Seq<char>,
    no_color: bool,
) -> bool {
    &&& p.notes@.len() == 0
    &&& p.changes matches Some(w) && w.wf() && (forall|k: Seq<char>| #[trigger] w@.contains_key(k) <==> (k == new_uuid || exists|j: int| 0 <= j < upd.len() && (*s[upd[j].0]).uuid@ == k))
        && (forall|j: int| 0 <= j < upd.len() ==> 0 <= #[trigger] upd[j].0 < s.len() && renumber_ok(w@[(*s[upd[j].0]).uuid@], *s[upd[j].0], upd[j].1, now_ms))
        && ((forall|j: int| 0 <= j < upd.len() ==> (*s[#[trigger] upd[j].0]).uuid@ != new_uuid) ==> w@[new_uuid].operation_type == OperationType::Create
        && w@[new_uuid].entity_type == Some(EntityType::Task6) && w@[new_uuid].properties.wf() && new_props_ok(w@[new_uuid].properties@, f, title, note, now_ms))
    &&& p.done_lines@.len() == 1
    &&& p.done_lines@[0]@ == crate::commands::mark::done_line("✓ Created"@, title, new_uuid, no_color)
    &&& p.fail_prefix@ == "Failed to create task: "@
}

/// A new task placed in its list: its index among the open siblings `s` of
/// the list, its place in Today when it starts today, and the changes.
pub open spec fn placed(
    p: CommandPlan,
    tasks: Map<Seq<char>, Task>,
    anchor: Option<Task>,
    before: bool,
    f: NewFields,
    title: Seq<char>,
    note: Option<Seq<char>>,
    today: i64,
    now_ms: i64,
    new_uuid: Seq<char>,
    no_color: bool,
    s: Seq<&Task>,
    ts: Seq<&Task>,
) -> bool {
    let target = fields_bucket(f);
    let a_today = anchor matches Some(a) && a.start == TaskStart::Anytime && (task_is_today(a, today) || a.evening);
    let at = list_slot(tasks, anchor, before, target, s);
    let ix = indices(s);
    let upd = if gap_ix(ix, at) is Some {
        Seq::<(int, i32)>::empty()
    } else {
        ix_updates(ix, at, s.len() as int)
    };
    let section = a_today && anchor.unwrap().evening;
    let tat = section_slot(ts, anchor, a_today, before);
    &&& shows(tasks, |t: Task| in_bucket(tasks, target, t), s)
    &&& sorted_index_id(s)
    &&& f.index == new_ix(ix, at)
    &&& if fields_today(f, today) {
        &&& shows(tasks, |t: Task| in_today_section(t, today, section), ts)
        &&& ranked(|t: Task| today_section_rank(t), ts)
        &&& f.today_ref == Some(today_slot(ts, tat, today).0)
        &&& f.today_index == Some(today_slot(ts, tat, today).1)
        &&& f.evening == (if a_today { Some(if anchor.unwrap().evening { 1i32 } else { 0i32 }) } else { None::<i32> })
    } else {
        f.today_index is None && f.evening is None
    }
    &&& new_changes(p, s, upd, f, title, note, now_ms, new_uuid, no_color)
}

/// The same fields apart from the placement ones.
pub open spec fn same_fields(a: NewFields, b: NewFields) -> bool {
    &&& opt_view(a.project) == opt_view(b.project)
    &&& opt_view(a.area) == opt_view(b.area)
    &&& a.start == b.start
    &&& a.scheduled == b.scheduled
    &&& match (a.tags, b.tags) {
        (Some(x), Some(y)) => views(x@) == views(y@),
        (None, None) => true,
        _ => false,
    }
    &&& a.deadline == b.deadline
}

pub(crate) fn position_of(s: &Vec<&Task>, u: &str) -> (r: Option<usize>)
    ensures
        s@.len() <= usize::MAX,
        match r {
            Some(k) => k < s@.len() && (*s@[k as int]).uuid@ == u@,
            None => forall|k: int| 0 <= k < s@.len() ==> (*#[trigger] s@[k]).uuid@ != u@,
        },
{
    let n = s.len();
    let mut k: usize = 0;
    while k < s.len()
        invariant
            n == s@.len(),
            k <= s@.len(),
            forall|j: int| 0 <= j < k ==> (*#[trigger] s@[j]).uuid@ != u@,
        decreases s@.len() - k,
    {
        if same_text(s[k].uuid.as_str(), u) {
            return Some(k);
        }
        k += 1;
    }
    None
}

proof fn lemma_anchor_slot(s: Seq<&Task>, a: Task, before: bool, k: int)
    requires
        0 <= k < s.len(),
        (*s[k]).uuid@ == a.uuid@,
        forall|x: int, y: int| 0 <= x < s.len() && 0 <= y < s.len() && x != y ==> (*#[trigger] s[x]).uuid@ != (*#[trigger] s[y]).uuid@,
    ensures
        anchor_slot(s, a, before) == if before { k } else { k + 1 },
{
    let c = choose|c: int| 0 <= c < s.len() && (*s[c]).uuid@ == a.uuid@;
    assert(c == k);
}

fn renumber_object(entity: &String, ix: i32, now_ms: i64) -> (o: WireObject)
    ensures
        object_is(
            o,
            OperationType::Update,
            Some(entity_of(*entity)),
            Map::empty().insert("ix"@, int_value(ix as i64)).insert("md"@, JsonValue::Millis(now_ms)),
        ),
{
    let mut p: KeyMap<JsonValue> = KeyMap::new();
    p.insert(owned("ix"), JsonValue::integer(ix as i64));
    p.insert(owned("md"), JsonValue::Millis(now_ms));
    WireObject { operation_type: OperationType::Update, entity_type: Some(EntityType::from(entity.clone())), properties: p }
}

/// What placing the new task decides: a container mismatch with the anchor,
/// an anchor missing from its list, or the placed task.
pub open spec fn place_outcome(
    p: CommandPlan,
    tasks: Map<Seq<char>, Task>,
    anchor: Option<Task>,
    before: bool,
    f: NewFields,
    title: Seq<char>,
    note: Option<Seq<char>>,
    today: i64,
    now_ms: i64,
    new_uuid: Seq<char>,
    no_color: bool,
) -> bool {
    let target = fields_bucket(f);
    let a_today = anchor matches Some(a) && a.start == TaskStart::Anytime && (task_is_today(a, today) || a.evening);
    if anchor matches Some(a) && !a_today && bucket_of(tasks, a) != target {
        reports_only(p, seq!["Cannot place new task relative to an item in a different container/list."@])
    } else if anchor matches Some(a) && bucket_of(tasks, a) == target && !in_bucket(tasks, target, a) {
        reports_only(p, seq!["Anchor not found in target list."@])
    } else {
        exists|f2: NewFields, s: Seq<&Task>, ts: Seq<&Task>|
            same_fields(f2, f) && (!fields_today(f2, today) ==> f2.today_ref == f.today_ref) && placed(
                p,
                tasks,
                anchor,
                before,
                f2,
                title,
                note,
                today,
                now_ms,
                new_uuid,
                no_color,
                s,
                ts,
            )
    }
}

fn sibling_slot<'a>(
    store: &'a ThingsStore,
    anchor: Option<&Task>,
    before: bool,
    target: Vec<String>,
    a_today: bool,
) -> (r: Result<(Vec<&'a Task>, usize), String>)
    requires
        store.wf(),
        anchor matches Some(a) ==> store.tasks_by_uuid@.contains_key(a.uuid@) && store.tasks_by_uuid@[a.uuid@] == *a,
    ensures
        ({
            let tasks = store.tasks_by_uuid@;
            let tv = views(target@);
            let an = deref_opt(anchor);
            if an matches Some(a) && !a_today && bucket_of(tasks, a) != tv {
                r matches Err(m) && m@ == "Cannot place new task relative to an item in a different container/list."@
            } else if an matches Some(a) && bucket_of(tasks, a) == tv && !in_bucket(tasks, tv, a) {
                r matches Err(m) && m@ == "Anchor not found in target list."@
            } else {
                r matches Ok((s, at)) && shows(tasks, |t: Task| in_bucket(tasks, tv, t), s@) && sorted_index_id(s@)
                    && at as int == list_slot(tasks, an, before, tv, s@) && at <= s@.len()
            }
        }),
{
    let ghost tasks = store.tasks_by_uuid@;
    let ghost tv = views(target@);
    let mut same = false;
    match anchor {
        Some(a) => {
            let ab = task_bucket(a, store);
            same = same_texts(&ab, &target);
            if !a_today && !same {
                return Err(owned("Cannot place new task relative to an item in a different container/list."));
            }
        },
        None => {},
    }
    let siblings = bucket_siblings(store, target);
    let mut insert_at: usize = 0;
    match anchor {
        Some(a) => {
            if same {
                match position_of(&siblings, a.uuid.as_str()) {
                    None => {
                        proof {
                            if in_bucket(tasks, tv, *a) {
                                assert(tasks.contains_key(a.uuid@));
                                let k = choose|k: int| 0 <= k < siblings@.len() && (*#[trigger] siblings@[k]).uuid@ == a.uuid@;
                            }
                        }
                        return Err(owned("Anchor not found in target list."));
                    },
                    Some(k) => {
                        proof {
                            lemma_anchor_slot(siblings@, *a, before, k as int);
                        }
                        insert_at = if before { k } else { k + 1 };
                    },
                }
            }
        },
        None => {},
    }
    Ok((siblings, insert_at))
}

fn today_place<'a>(
    store: &'a ThingsStore,
    anchor: Option<&Task>,
    before: bool,
    a_today: bool,
    today: i64,
) -> (r: (Vec<&'a Task>, i64, i32))
    requires
        store.wf(),
        a_today ==> anchor is Some,
    ensures
        ({
            let an = deref_opt(anchor);
            let section = a_today && an.unwrap().evening;
            &&& shows(store.tasks_by_uuid@, |t: Task| in_today_section(t, today, section), r.0@)
            &&& ranked(|t: Task| today_section_rank(t), r.0@)
            &&& (r.1, r.2) == today_slot(r.0@, section_slot(r.0@, an, a_today, before), today)
        }),
{
    let section = match anchor {
        Some(a) => a_today && a.evening,
        None => false,
    };
    let ts = today_siblings(store, today, section);
    let mut tat: usize = 0;
    match anchor {
        Some(a) => {
            if a_today {
                match position_of(&ts, a.uuid.as_str()) {
                    Some(k) => {
                        proof {
                            lemma_anchor_slot(ts@, *a, before, k as int);
                        }
                        tat = if before { k } else { k + 1 };
                    },
                    None => {},
                }
            }
        },
        None => {},
    }
    let (tir, ti): (i64, i32) = if tat < ts.len() {
        let nx = ts[tat];
        (match nx.today_index_reference {
            Some(r) => r,
            None => today,
        }, nx.today_index.wrapping_sub(1))
    } else if tat > 0 {
        let pv = ts[tat - 1];
        (match pv.today_index_reference {
            Some(r) => r,
            None => today,
        }, pv.today_index.wrapping_add(1))
    } else {
        (today, 0)
    };
    (ts, tir, ti)
}

fn build_new_changes(
    f: &NewFields,
    title: &str,
    note: &Option<String>,
    now_ms: i64,
    new_uuid: &str,
    siblings: &Vec<&Task>,
    updates: &Vec<(String, i32, String)>,
    upd: Ghost<Seq<(int, i32)>>,
) -> (w: KeyMap<WireObject>)
    requires
        updates@.len() == upd@.len(),
        forall|j: int| 0 <= j < upd@.len() ==> {
            &&& 0 <= #[trigger] upd@[j].0 < siblings@.len()
            &&& updates@[j].0@ == siblings@[upd@[j].0].uuid@
            &&& updates@[j].1 == upd@[j].1
            &&& updates@[j].2 == siblings@[upd@[j].0].entity
        },
        forall|a: int, b: int| 0 <= a < b < upd@.len() ==> #[trigger] upd@[a].0 < #[trigger] upd@[b].0,
        forall|x: int, y: int| 0 <= x < siblings@.len() && 0 <= y < siblings@.len() && x != y ==> (*#[trigger] siblings@[x]).uuid@ != (*#[trigger] siblings@[y]).uuid@,
    ensures
        w.wf(),
        forall|key: Seq<char>| #[trigger] w@.contains_key(key) <==> (key == new_uuid@ || exists|j: int| 0 <= j < upd@.len() && (*siblings@[upd@[j].0]).uuid@ == key),
        forall|j: int| 0 <= j < upd@.len() ==> renumber_ok(w@[(*siblings@[#[trigger] upd@[j].0]).uuid@], *siblings@[upd@[j].0], upd@[j].1, now_ms),
        (forall|j: int| 0 <= j < upd@.len() ==> (*siblings@[#[trigger] upd@[j].0]).uuid@ != new_uuid@) ==> (w@[new_uuid@].operation_type == OperationType::Create
            && w@[new_uuid@].entity_type == Some(EntityType::Task6) && w@[new_uuid@].properties.wf() && new_props_ok(w@[new_uuid@].properties@, *f, title@, opt_view(*note), now_ms)),
{
    let ghost upd = upd@;
    let props = new_props(f, title, note, now_ms);
    let mut w: KeyMap<WireObject> = KeyMap::new();
    w.insert(owned(new_uuid), WireObject { operation_type: OperationType::Create, entity_type: Some(EntityType::Task6), properties: props });
    let mut k: usize = 0;
    while k < updates.len()
        invariant
            w.wf(),
            k <= updates@.len(),
            updates@.len() == upd.len(),
            forall|j: int| 0 <= j < upd.len() ==> {
                &&& 0 <= #[trigger] upd[j].0 < siblings@.len()
                &&& updates@[j].0@ == siblings@[upd[j].0].uuid@
                &&& updates@[j].1 == upd[j].1
                &&& updates@[j].2 == siblings@[upd[j].0].entity
            },
            forall|a: int, b: int| 0 <= a < b < upd.len() ==> #[trigger] upd[a].0 < #[trigger] upd[b].0,
            forall|x: int, y: int| 0 <= x < siblings@.len() && 0 <= y < siblings@.len() && x != y ==> (*#[trigger] siblings@[x]).uuid@ != (*#[trigger] siblings@[y]).uuid@,
            forall|key: Seq<char>| #[trigger] w@.contains_key(key) <==> (key == new_uuid@ || exists|j: int| 0 <= j < k && (*siblings@[upd[j].0]).uuid@ == key),
            forall|j: int| 0 <= j < k ==> renumber_ok(w@[(*siblings@[#[trigger] upd[j].0]).uuid@], *siblings@[upd[j].0], upd[j].1, now_ms),
            (forall|j: int| 0 <= j < k ==> (*siblings@[#[trigger] upd[j].0]).uuid@ != new_uuid@) ==> (w@[new_uuid@].operation_type == OperationType::Create
                && w@[new_uuid@].entity_type == Some(EntityType::Task6) && w@[new_uuid@].properties.wf() && new_props_ok(w@[new_uuid@].properties@, *f, title@, opt_view(*note), now_ms)),
        decreases updates@.len() - k,
    {
        let u = &updates[k].0;
        let nix = updates[k].1;
        let ent = &updates[k].2;
        let ghost before_w = w@;
        w.insert(u.clone(), renumber_object(ent, nix, now_ms));
        proof {
            assert forall|j: int| 0 <= j < k + 1 implies renumber_ok(w@[(*siblings@[#[trigger] upd[j].0]).uuid@], *siblings@[upd[j].0], upd[j].1, now_ms) by {
                if j < k {
                    assert(upd[j].0 < upd[k as int].0);
                    assert((*siblings@[upd[j].0]).uuid@ != (*siblings@[upd[k as int].0]).uuid@);
                }
            }
            assert forall|key: Seq<char>| #[trigger] w@.contains_key(key) <==> (key == new_uuid@ || exists|j: int| 0 <= j < k + 1 && (*siblings@[upd[j].0]).uuid@ == key) by {
                if key == u@ {
                    assert((*siblings@[upd[k as int].0]).uuid@ == key);
                }
                if exists|j: int| 0 <= j < k + 1 && (*siblings@[upd[j].0]).uuid@ == key {
                    let j = choose|j: int| 0 <= j < k + 1 && (*siblings@[upd[j].0]).uuid@ == key;
                    if j < k {
                        assert(before_w.contains_key(key));
                    }
                }
            }
            if forall|j: int| 0 <= j < k + 1 ==> (*siblings@[#[trigger] upd[j].0]).uuid@ != new_uuid@ {
                assert((*siblings@[upd[k as int].0]).uuid@ != new_uuid@);
                assert(forall|j: int| 0 <= j < k ==> (*siblings@[#[trigger] upd[j].0]).uuid@ != new_uuid@);
            }
        }
        k += 1;
    }
    w
}

fn place_new(
    store: &ThingsStore,
    anchor: Option<&Task>,
    before: bool,
    f: NewFields,
    title: &str,
    note: &Option<String>,
    today: i64,
    now_ms: i64,
    new_uuid: &str,
    no_color: bool,
) -> (p: CommandPlan)
    requires
        store.wf(),
        anchor matches Some(a) ==> store.tasks_by_uuid@.contains_key(a.uuid@) && store.tasks_by_uuid@[a.uuid@] == *a,
        f.today_index is None,
        f.evening is None,
    ensures
        place_outcome(p, store.tasks_by_uuid@, deref_opt(anchor), before, f, title@, opt_view(*note), today, now_ms, new_uuid@, no_color),
{
    let ghost tasks = store.tasks_by_uuid@;
    let ghost f0 = f;
    let mut f = f;
    let target = fields_bucket_vec(&f);
    let a_today: bool = match anchor {
        Some(a) => a.start == TaskStart::Anytime && (a.is_today(today) || a.evening),
        None => false,
    };
    let (siblings, insert_at) = match sibling_slot(store, anchor, before, target, a_today) {
        Err(m) => {
            return report_one(m);
        },
        Ok(x) => x,
    };
    let (ix, updates) = plan_ix_insert(&siblings, insert_at);
    f.index = ix;
    let mut today_sibs: Vec<&Task> = Vec::new();
    let is_today = f.start == 1 && match f.scheduled {
        Some(Some(d)) => d <= today,
        _ => false,
    };
    if is_today {
        if a_today {
            match anchor {
                Some(a) => {
                    f.evening = Some(if a.evening { 1 } else { 0 });
                },
                None => {},
            }
        }
        let (ts, tir, ti) = today_place(store, anchor, before, a_today, today);
        today_sibs = ts;
        f.today_ref = Some(tir);
        f.today_index = Some(ti);
    }
    let ghost upd = if gap_ix(indices(siblings@), insert_at as int) is Some {
        Seq::<(int, i32)>::empty()
    } else {
        ix_updates(indices(siblings@), insert_at as int, siblings@.len() as int)
    };
    proof {
        lemma_ix_updates_increasing(indices(siblings@), insert_at as int, siblings@.len() as int);
    }
    let w = build_new_changes(&f, title, note, now_ms, new_uuid, &siblings, &updates, Ghost(upd));
    let mut lines: Vec<String> = Vec::new();
    lines.push(done_line_text("✓ Created", title, new_uuid, no_color));
    let p = CommandPlan { notes: Vec::new(), changes: Some(w), done_lines: lines, fail_prefix: owned("Failed to create task: ") };
    proof {
        let an = deref_opt(anchor);
        assert(same_fields(f, f0));
        assert(fields_bucket(f) == fields_bucket(f0));
        assert(a_today == (an matches Some(a) && a.start == TaskStart::Anytime && (task_is_today(a, today) || a.evening)));
        assert(insert_at as int == list_slot(tasks, an, before, fields_bucket(f), siblings@));
        assert(is_today == fields_today(f, today));
        let tat = section_slot(today_sibs@, an, a_today, before);
        if is_today {
            assert(f.today_ref == Some(today_slot(today_sibs@, tat, today).0));
            assert(f.today_index == Some(today_slot(today_sibs@, tat, today).1));
        }
        assert(new_changes(p, siblings@, upd, f, title@, opt_view(*note), now_ms, new_uuid@, no_color));
        assert(placed(p, tasks, an, before, f, title@, opt_view(*note), today, now_ms, new_uuid@, no_color, siblings@, today_sibs@));
    }
    p
}

proof fn lemma_ix_updates_increasing(ix: Seq<i32>, at: int, n: int)
    requires
        n <= ix.len(),
    ensures
        forall|a: int, b: int| 0 <= a < b < ix_updates(ix, at, n).len() ==> #[trigger] ix_updates(ix, at, n)[a].0 < #[trigger] ix_updates(ix, at, n)[b].0,
        forall|a: int| 0 <= a < ix_updates(ix, at, n).len() ==> 0 <= #[trigger] ix_updates(ix, at, n)[a].0 < n,
    decreases n,
{
    if n > 0 {
        lemma_ix_updates_increasing(ix, at, n - 1);
        let r = ix_updates(ix, at, n - 1);
        let q = ix_updates(ix, at, n);
        assert forall|a: int| 0 <= a < q.len() implies 0 <= #[trigger] q[a].0 < n by {
            if a < r.len() {
                assert(q[a] == r[a]);
            }
        }
        assert forall|a: int, b: int| 0 <= a < b < q.len() implies #[trigger] q[a].0 < #[trigger] q[b].0 by {
            if b < r.len() {
                assert(q[a] == r[a] && q[b] == r[b]);
            } else {
                assert(q[a] == r[a]);
            }
        }
    }
}

/// The tag ids `--tags` names, when given; or why they cannot be resolved.
pub open spec fn tags_of(tags: Map<Seq<char>, crate::store::Tag>, raw: Option<String>) -> Result<Option<Seq<Seq<char>>>, Seq<char>> {
    match raw {
        None => Ok(None),
        Some(t) => match tag_ids_from(tags, comma_tokens(t@)) {
            Ok(ids) => Ok(Some(ids)),
            Err(m) => Err(m),
        },
    }
}

/// The deadline `--deadline` names, when given; or why it does not parse.
pub open spec fn deadline_of(raw: Option<String>, parsed: Result<i64, Seq<char>>) -> Result<Option<i64>, Seq<char>> {
    match raw {
        None => Ok(None),
        Some(_) => match parsed {
            Ok(d) => Ok(Some(d)),
            Err(m) => Err(m),
        },
    }
}

/// What `new` decides, given what `--when` and `--deadline` parse to.
pub open spec fn new_outcome(
    p: CommandPlan,
    store: ThingsStore,
    args: NewArgs,
    now_ms: i64,
    today: i64,
    new_uuid: Seq<char>,
    wp: Result<i64, Seq<char>>,
    dp: Result<i64, Seq<char>>,
    no_color: bool,
) -> bool {
    let tasks = store.tasks_by_uuid@;
    let title = trimmed(args.title@);
    let note = if args.notes@.len() > 0 { Some(args.notes@) } else { None };
    let aid = match args.before_id {
        Some(x) => Some(x@),
        None => opt_view(args.after_id),
    };
    let cont = container_of(tasks, store.markable_ids_sorted@, store.areas_by_uuid@, store.area_ids_sorted@, trimmed(args.in_target@));
    let wh = when_of(opt_view(args.when), today, wp);
    let tg = tags_of(store.tags_by_uuid@, args.tags);
    let dl = deadline_of(args.deadline_date, dp);
    if title.len() == 0 {
        reports_only(p, seq!["Task title cannot be empty."@])
    } else if aid matches Some(x) && resolved(tasks, store.task_ids_sorted@, x, "Task"@).0 is None {
        reports_only(p, seq![resolved(tasks, store.task_ids_sorted@, aid.unwrap(), "Task"@).1])
    } else {
        let anchor = match aid {
            Some(x) => resolved(tasks, store.task_ids_sorted@, x, "Task"@).0,
            None => None,
        };
        match cont {
            Err(m) => reports_only(p, seq![m]),
            Ok((pr, ar)) => match wh {
                Err(m) => reports_only(p, seq![m]),
                Ok((wst, sched, tir)) => match tg {
                    Err(m) => reports_only(p, seq![m]),
                    Ok(tids) => match dl {
                        Err(m) => reports_only(p, seq![m]),
                        Ok(dd) => exists|f: NewFields| {
                            &&& opt_view(f.project) == pr
                            &&& opt_view(f.area) == ar
                            &&& f.start == (match wst {
                                Some(x) => x,
                                None => if pr is Some || ar is Some { 1i64 } else { 0i64 },
                            })
                            &&& f.scheduled == sched
                            &&& f.today_ref == tir
                            &&& (match (f.tags, tids) {
                                (Some(v), Some(ids)) => views(v@) == ids,
                                (None, None) => true,
                                _ => false,
                            })
                            &&& f.deadline == dd
                            &&& f.today_index is None
                            &&& f.evening is None
                            &&& place_outcome(p, tasks, anchor, args.before_id is Some, f, title, note, today, now_ms, new_uuid, no_color)
                        },
                    },
                },
            },
        }
    }
}

impl NewArgs {
    /// What `new` does, given what `--when` and `--deadline` parse to
    /// (`when_parsed` is read only for a `--when` day, `deadline_parsed` only
    /// with `--deadline`).
    pub fn plan_with(
        &self,
        store: &ThingsStore,
        now_ms: i64,
        today: i64,
        new_uuid: &str,
        when_parsed: &Result<i64, String>,
        deadline_parsed: &Result<i64, String>,
        no_color: bool,
    ) -> (p: CommandPlan)
        requires
            store.wf(),
        ensures
            new_outcome(
                p,
                *store,
                *self,
                now_ms,
                today,
                new_uuid@,
                match when_parsed { Ok(d) => Ok(*d), Err(m) => Err(m@) },
                match deadline_parsed { Ok(d) => Ok(*d), Err(m) => Err(m@) },
                no_color,
            ),
    {
        let ghost tasks = store.tasks_by_uuid@;
        let title = trim(self.title.as_str());
        if title.as_str().is_empty() {
            return report_one(owned("Task title cannot be empty."));
        }
        let note: Option<String> = if !self.notes.as_str().is_empty() {
            Some(self.notes.clone())
        } else {
            None
        };
        let anchor_id: Option<&String> = match &self.before_id {
            Some(x) => Some(x),
            None => match &self.after_id {
                Some(x) => Some(x),
                None => None,
            },
        };
        let mut anchor: Option<&Task> = None;
        match anchor_id {
            Some(id) => {
                let (t, err, _) = store.resolve_task_identifier(id.as_str());
                match t {
                    None => {
                        return report_one(err);
                    },
                    Some(t) => {
                        proof {
                            assert forall|i: int| 0 <= i < store.task_ids_sorted@.len() implies tasks.contains_key(#[trigger] store.task_ids_sorted@[i]@) by {
                                assert(id_set(store.task_ids_sorted@).contains(store.task_ids_sorted@[i]@));
                            }
                            lemma_resolved_in(tasks, store.task_ids_sorted@, id@, "Task"@);
                            let k = choose|k: Seq<char>| tasks.contains_key(k) && tasks[k] == *t;
                        }
                        anchor = Some(t);
                    },
                }
            },
            None => {},
        }
        let it = trim(self.in_target.as_str());
        let (project, area) = match resolve_container(store, it.as_str()) {
            Err(m) => {
                return report_one(m);
            },
            Ok(x) => x,
        };
        let (wst, sched, tir) = match resolve_when(&self.when, today, when_parsed) {
            Err(m) => {
                return report_one(m);
            },
            Ok(x) => x,
        };
        let tags: Option<Vec<String>> = match &self.tags {
            None => None,
            Some(t) => {
                let (ids, msg) = resolve_tag_ids(store, t.as_str());
                proof {
                    lemma_tag_ids_msg(store.tags_by_uuid@, comma_tokens(t@));
                }
                if !msg.as_str().is_empty() {
                    return report_one(msg);
                }
                Some(ids)
            },
        };
        let deadline: Option<i64> = match &self.deadline_date {
            None => None,
            Some(_) => match deadline_parsed {
                Err(m) => {
                    return report_one(m.clone());
                },
                Ok(d) => Some(*d),
            },
        };
        let start: i64 = match wst {
            Some(x) => x,
            None => if project.is_some() || area.is_some() {
                1
            } else {
                0
            },
        };
        let f = NewFields {
            project,
            area,
            start,
            scheduled: sched,
            today_ref: tir,
            tags,
            deadline,
            index: 0,
            today_index: None,
            evening: None,
        };
        let ghost fv = f;
        let p = place_new(store, anchor, self.before_id.is_some(), f, title.as_str(), &note, today, now_ms, new_uuid, no_color);
        proof {
            assert(place_outcome(p, tasks, deref_opt(anchor), self.before_id is Some, fv, title@, opt_view(note), today, now_ms, new_uuid@, no_color));
        }
        p
    }
}

/// Whether `r` is a result `parse_day` can give for `text` under `label`.
pub open spec fn day_result_ok(text: Seq<char>, label: Seq<char>, r: Result<i64, Seq<char>>) -> bool {
    match r {
        Ok(v) => near_day(text, v),
        Err(m) => m == invalid_day_text(label, text),
    }
}

impl NewArgs {
    /// What `new` does with the store as it is, at `now_ms`, on the day
    /// `today`: it parses `--when` and `--deadline` days in local time and
    /// names the new task with a fresh random id.
    pub fn plan(&self, store: &ThingsStore, now_ms: i64, today: i64, no_color: bool) -> (p: CommandPlan)
        requires
            store.wf(),
        ensures
            exists|wp: Result<i64, Seq<char>>, dp: Result<i64, Seq<char>>, new_uuid: Seq<char>|
                (when_is_day(opt_view(self.when)) ==> day_result_ok(trimmed(self.when.unwrap()@), "--when"@, wp))
                && (self.deadline_date matches Some(d) ==> day_result_ok(d@, "--deadline"@, dp))
                && crate::ids::id_shaped(new_uuid)
                && new_outcome(p, *store, *self, now_ms, today, new_uuid, wp, dp, no_color),
    {
        let wp: Result<i64, String> = match &self.when {
            Some(w) => {
                let t = trim(w.as_str());
                if !eq_ignore_ascii_case(t.as_str(), "anytime") && !eq_ignore_ascii_case(t.as_str(), "someday")
                    && !eq_ignore_ascii_case(t.as_str(), "today") {
                    match parse_day(Some(t.as_str()), "--when") {
                        Ok(Some(d)) => Ok(d),
                        Ok(None) => Err(owned("--when requires anytime, someday, today, or YYYY-MM-DD")),
                        Err(m) => Err(m),
                    }
                } else {
                    Err(String::new())
                }
            },
            None => Err(String::new()),
        };
        let dp: Result<i64, String> = match &self.deadline_date {
            Some(d) => match parse_day(Some(d.as_str()), "--deadline") {
                Ok(Some(x)) => Ok(x),
                Ok(None) => Err(String::new()),
                Err(m) => Err(m),
            },
            None => Err(String::new()),
        };
        let new_uuid = crate::ids::random_task_id();
        let p = self.plan_with(store, now_ms, today, new_uuid.as_str(), &wp, &dp, no_color);
        proof {
            let wv: Result<i64, Seq<char>> = match wp { Ok(d) => Ok(d), Err(m) => Err(m@) };
            let dv: Result<i64, Seq<char>> = match dp { Ok(d) => Ok(d), Err(m) => Err(m@) };
            assert((when_is_day(opt_view(self.when)) ==> day_result_ok(trimmed(self.when.unwrap()@), "--when"@, wv))
                && (self.deadline_date matches Some(d) ==> day_result_ok(d@, "--deadline"@, dv))
                && crate::ids::id_shaped(new_uuid@)
                && new_outcome(p, *store, *self, now_ms, today, new_uuid@, wv, dv, no_color));
        }
        p
    }
}

} // verus!
