//! Partial updates of tasks, checklist items, tags and areas, and the
//! property maps they are sent as: each field that is set, under its wire
//! key; the others left out.

use vstd::prelude::*;
use crate::commands::{json_strs, str_is, strs_are};
use crate::json::{JsonValue, int_value};
use crate::keymap::KeyMap;
use crate::text::{owned, views};
use crate::wire::{TaskStart, TaskStatus, task_start_code, task_status_code};

verus! {

/// A change to a task; dates are in milliseconds.
pub struct TaskPatch {
    pub title: Option<String>,
    pub notes: Option<JsonValue>,
    pub start_location: Option<TaskStart>,
    pub scheduled_date: Option<JsonValue>,
    pub today_index_reference: Option<JsonValue>,
    pub parent_project_ids: Option<Vec<String>>,
    pub area_ids: Option<Vec<String>>,
    pub action_group_ids: Option<Vec<String>>,
    pub tag_ids: Option<Vec<String>>,
    pub evening_bit: Option<i32>,
    pub modification_date: Option<i64>,
}

/// A change to a checklist item; dates are in milliseconds.
pub struct ChecklistItemPatch {
    pub title: Option<String>,
    pub status: Option<TaskStatus>,
    pub task_ids: Option<Vec<String>>,
    pub sort_index: Option<i32>,
    pub creation_date: Option<i64>,
    pub modification_date: Option<i64>,
}

/// A change to a tag; dates are in milliseconds.
pub struct TagPatch {
    pub title: Option<String>,
    pub parent_ids: Option<Vec<String>>,
    pub modification_date: Option<i64>,
}

/// A change to an area; dates are in milliseconds.
pub struct AreaPatch {
    pub title: Option<String>,
    pub tag_ids: Option<Vec<String>>,
    pub modification_date: Option<i64>,
}

/// Property `key` of `m` is present exactly when the field is set, and then
/// it is `v`.
pub open spec fn json_field(m: Map<Seq<char>, JsonValue>, key: Seq<char>, f: Option<JsonValue>) -> bool {
    match f {
        Some(v) => m.contains_key(key) && m[key] == v,
        None => !m.contains_key(key),
    }
}

/// Property `key` of `m` is present exactly when the text field is set, and
/// then it is that text.
pub open spec fn text_field(m: Map<Seq<char>, JsonValue>, key: Seq<char>, f: Option<String>) -> bool {
    match f {
        Some(s) => m.contains_key(key) && str_is(m[key], s@),
        None => !m.contains_key(key),
    }
}

/// Property `key` of `m` is present exactly when the list field is set, and
/// then it is the list of those texts.
pub open spec fn texts_field(m: Map<Seq<char>, JsonValue>, key: Seq<char>, f: Option<Vec<String>>) -> bool {
    match f {
        Some(v) => m.contains_key(key) && strs_are(m[key], views(v@)),
        None => !m.contains_key(key),
    }
}

/// Property `key` of `m` is present exactly when the number field is set,
/// and then it is that number.
pub open spec fn int_field(m: Map<Seq<char>, JsonValue>, key: Seq<char>, f: Option<i32>) -> bool {
    match f {
        Some(i) => m.contains_key(key) && m[key] == int_value(i as i64),
        None => !m.contains_key(key),
    }
}

/// Property `key` of `m` is present exactly when the date field is set, and
/// then it is that date.
pub open spec fn millis_field(m: Map<Seq<char>, JsonValue>, key: Seq<char>, f: Option<i64>) -> bool {
    match f {
        Some(ms) => m.contains_key(key) && m[key] == JsonValue::Millis(ms),
        None => !m.contains_key(key),
    }
}

/// `m` holds no key outside `keys`.
pub open spec fn keys_within(m: Map<Seq<char>, JsonValue>, keys: Set<Seq<char>>) -> bool {
    forall|k: Seq<char>| #[trigger] m.contains_key(k) ==> keys.contains(k)
}

/// No field of the task patch is set.
pub open spec fn task_patch_unset(p: TaskPatch) -> bool {
    p.title is None && p.notes is None && p.start_location is None && p.scheduled_date is None
        && p.today_index_reference is None && p.parent_project_ids is None && p.area_ids is None
        && p.action_group_ids is None && p.tag_ids is None && p.evening_bit is None && p.modification_date is None
}

/// No field of the checklist item patch is set.
pub open spec fn checklist_patch_unset(p: ChecklistItemPatch) -> bool {
    p.title is None && p.status is None && p.task_ids is None && p.sort_index is None && p.creation_date is None
        && p.modification_date is None
}

/// No field of the tag patch is set.
pub open spec fn tag_patch_unset(p: TagPatch) -> bool {
    p.title is None && p.parent_ids is None && p.modification_date is None
}

/// No field of the area patch is set.
pub open spec fn area_patch_unset(p: AreaPatch) -> bool {
    p.title is None && p.tag_ids is None && p.modification_date is None
}

/// The property map of a task patch.
pub open spec fn task_patch_props(p: TaskPatch, m: Map<Seq<char>, JsonValue>) -> bool {
    &&& keys_within(m, set!["agr"@, "ar"@, "md"@, "nt"@, "pr"@, "sb"@, "sr"@, "st"@, "tg"@, "tir"@, "tt"@])
    &&& texts_field(m, "agr"@, p.action_group_ids)
    &&& texts_field(m, "ar"@, p.area_ids)
    &&& millis_field(m, "md"@, p.modification_date)
    &&& json_field(m, "nt"@, p.notes)
    &&& texts_field(m, "pr"@, p.parent_project_ids)
    &&& int_field(m, "sb"@, p.evening_bit)
    &&& json_field(m, "sr"@, p.scheduled_date)
    &&& int_field(m, "st"@, match p.start_location {
        Some(s) => Some(task_start_code(s)),
        None => None,
    })
    &&& texts_field(m, "tg"@, p.tag_ids)
    &&& json_field(m, "tir"@, p.today_index_reference)
    &&& text_field(m, "tt"@, p.title)
}

/// The property map of a checklist item patch.
pub open spec fn checklist_patch_props(p: ChecklistItemPatch, m: Map<Seq<char>, JsonValue>) -> bool {
    &&& keys_within(m, set!["cd"@, "ix"@, "md"@, "ss"@, "ts"@, "tt"@])
    &&& millis_field(m, "cd"@, p.creation_date)
    &&& int_field(m, "ix"@, p.sort_index)
    &&& millis_field(m, "md"@, p.modification_date)
    &&& int_field(m, "ss"@, match p.status {
        Some(s) => Some(task_status_code(s)),
        None => None,
    })
    &&& texts_field(m, "ts"@, p.task_ids)
    &&& text_field(m, "tt"@, p.title)
}

/// The property map of a tag patch.
pub open spec fn tag_patch_props(p: TagPatch, m: Map<Seq<char>, JsonValue>) -> bool {
    &&& keys_within(m, set!["md"@, "pn"@, "tt"@])
    &&& millis_field(m, "md"@, p.modification_date)
    &&& texts_field(m, "pn"@, p.parent_ids)
    &&& text_field(m, "tt"@, p.title)
}

/// The property map of an area patch.
pub open spec fn area_patch_props(p: AreaPatch, m: Map<Seq<char>, JsonValue>) -> bool {
    &&& keys_within(m, set!["md"@, "tg"@, "tt"@])
    &&& millis_field(m, "md"@, p.modification_date)
    &&& texts_field(m, "tg"@, p.tag_ids)
    &&& text_field(m, "tt"@, p.title)
}

/// `m` with `key` set to `v`, when there is one.
pub open spec fn put_opt(m: Map<Seq<char>, JsonValue>, key: Seq<char>, v: Option<JsonValue>) -> Map<Seq<char>, JsonValue> {
    match v {
        Some(x) => m.insert(key, x),
        None => m,
    }
}

/// The map that setting each of the first `n` entries that has a value, in
/// turn, gives from empty.
pub open spec fn put_upto(es: Seq<(Seq<char>, Option<JsonValue>)>, n: nat) -> Map<Seq<char>, JsonValue>
    decreases n,
{
    if n == 0 {
        Map::empty()
    } else {
        put_opt(put_upto(es, (n - 1) as nat), es[n - 1].0, es[n - 1].1)
    }
}

/// The value of the last of the first `n` entries with key `k` that has one.
pub open spec fn present_at(es: Seq<(Seq<char>, Option<JsonValue>)>, k: Seq<char>, n: nat) -> Option<JsonValue>
    decreases n,
{
    if n == 0 {
        None
    } else if es[n - 1].0 == k && es[n - 1].1 is Some {
        es[n - 1].1
    } else {
        present_at(es, k, (n - 1) as nat)
    }
}

/// A key is in the map exactly when one of the entries gives it a value, and
/// then holds the last such value.
pub proof fn lemma_put_upto(es: Seq<(Seq<char>, Option<JsonValue>)>, n: nat, k: Seq<char>)
    ensures
        put_upto(es, n).contains_key(k) <==> present_at(es, k, n) is Some,
        put_upto(es, n).contains_key(k) ==> put_upto(es, n)[k] == present_at(es, k, n).unwrap(),
    decreases n,
{
    if n > 0 {
        lemma_put_upto(es, (n - 1) as nat, k);
    }
}

/// The entries by view.
pub open spec fn entry_views(v: Seq<(&str, Option<JsonValue>)>) -> Seq<(Seq<char>, Option<JsonValue>)> {
    v.map_values(|e: (&str, Option<JsonValue>)| (e.0@, e.1))
}

/// The properties that the entries with values give.
fn props_from(entries: Vec<(&str, Option<JsonValue>)>) -> (r: KeyMap<JsonValue>)
    ensures
        r.wf(),
        r@ == put_upto(entry_views(entries@), entries@.len()),
{
    let ghost es = entry_views(entries@);
    let mut m: KeyMap<JsonValue> = KeyMap::new();
    let mut rest = entries;
    let total: usize = rest.len();
    let mut i: usize = 0;
    while rest.len() > 0
        invariant
            m.wf(),
            es.len() == total,
            i + rest@.len() == total,
            forall|x: int| 0 <= x < rest@.len() ==> (#[trigger] rest@[x]).0@ == es[i + x].0 && rest@[x].1 == es[i + x].1,
            m@ == put_upto(es, i as nat),
        decreases rest@.len(),
    {
        let ghost before = rest@;
        let (k, v) = rest.remove(0);
        proof {
            assert(before[0] == (k, v));
            assert forall|x: int| 0 <= x < rest@.len() implies (#[trigger] rest@[x]).0@ == es[i + 1 + x].0 && rest@[x].1 == es[i + 1 + x].1 by {
                assert(rest@[x] == before[x + 1]);
            }
        }
        match v {
            Some(x) => m.insert(owned(k), x),
            None => {},
        }
        i += 1;
    }
    m
}

fn texts_json(f: &Option<Vec<String>>) -> (r: Option<JsonValue>)
    ensures
        f is None <==> r is None,
        f matches Some(v) ==> (r matches Some(x) && strs_are(x, views(v@))),
{
    match f {
        Some(v) => Some(json_strs(v)),
        None => None,
    }
}

fn text_json(f: &Option<String>) -> (r: Option<JsonValue>)
    ensures
        f is None <==> r is None,
        f matches Some(s) ==> (r matches Some(x) && str_is(x, s@)),
{
    match f {
        Some(s) => Some(JsonValue::string(s.as_str())),
        None => None,
    }
}

fn int_json(f: Option<i32>) -> (r: Option<JsonValue>)
    ensures
        r == (match f {
            Some(i) => Some(int_value(i as i64)),
            None => None,
        }),
{
    match f {
        Some(i) => Some(JsonValue::integer(i as i64)),
        None => None,
    }
}

fn millis_json(f: Option<i64>) -> (r: Option<JsonValue>)
    ensures
        r == (match f {
            Some(ms) => Some(JsonValue::Millis(ms)),
            None => None,
        }),
{
    match f {
        Some(ms) => Some(JsonValue::Millis(ms)),
        None => None,
    }
}

impl TaskPatch {
    /// Whether no field is set.
    pub fn is_empty(&self) -> (r: bool)
        ensures
            r == task_patch_unset(*self),
    {
        self.title.is_none() && self.notes.is_none() && self.start_location.is_none() && self.scheduled_date.is_none()
            && self.today_index_reference.is_none() && self.parent_project_ids.is_none() && self.area_ids.is_none()
            && self.action_group_ids.is_none() && self.tag_ids.is_none() && self.evening_bit.is_none()
            && self.modification_date.is_none()
    }

    /// The properties that carry the patch.
    pub fn into_properties(self) -> (r: KeyMap<JsonValue>)
        ensures
            r.wf(),
            task_patch_props(self, r@),
    {
        let agr = texts_json(&self.action_group_ids);
        let ar = texts_json(&self.area_ids);
        let md = millis_json(self.modification_date);
        let pr = texts_json(&self.parent_project_ids);
        let sb = int_json(self.evening_bit);
        let st = int_json(match self.start_location {
            Some(x) => Some(i32::from(x)),
            None => None,
        });
        let tg = texts_json(&self.tag_ids);
        let tt = text_json(&self.title);
        let entries: Vec<(&str, Option<JsonValue>)> = vec![
            ("agr", agr),
            ("ar", ar),
            ("md", md),
            ("nt", self.notes),
            ("pr", pr),
            ("sb", sb),
            ("sr", self.scheduled_date),
            ("st", st),
            ("tg", tg),
            ("tir", self.today_index_reference),
            ("tt", tt),
        ];
        let ghost es = entry_views(entries@);
        let m = props_from(entries);
        proof {
            reveal_strlit("agr");
            assert("agr"@.len() == 3 && "agr"@[0] == 'a' && "agr"@[1] == 'g' && "agr"@[2] == 'r');
            reveal_strlit("ar");
            assert("ar"@.len() == 2 && "ar"@[0] == 'a' && "ar"@[1] == 'r');
            reveal_strlit("md");
            assert("md"@.len() == 2 && "md"@[0] == 'm' && "md"@[1] == 'd');
            reveal_strlit("nt");
            assert("nt"@.len() == 2 && "nt"@[0] == 'n' && "nt"@[1] == 't');
            reveal_strlit("pr");
            assert("pr"@.len() == 2 && "pr"@[0] == 'p' && "pr"@[1] == 'r');
            reveal_strlit("sb");
            assert("sb"@.len() == 2 && "sb"@[0] == 's' && "sb"@[1] == 'b');
            reveal_strlit("sr");
            assert("sr"@.len() == 2 && "sr"@[0] == 's' && "sr"@[1] == 'r');
            reveal_strlit("st");
            assert("st"@.len() == 2 && "st"@[0] == 's' && "st"@[1] == 't');
            reveal_strlit("tg");
            assert("tg"@.len() == 2 && "tg"@[0] == 't' && "tg"@[1] == 'g');
            reveal_strlit("tir");
            assert("tir"@.len() == 3 && "tir"@[0] == 't' && "tir"@[1] == 'i' && "tir"@[2] == 'r');
            reveal_strlit("tt");
            assert("tt"@.len() == 2 && "tt"@[0] == 't' && "tt"@[1] == 't');
            assert(es.len() == 11);
            assert(es[0] == ("agr"@, agr));
            assert(es[1] == ("ar"@, ar));
            assert(es[2] == ("md"@, md));
            assert(es[3] == ("nt"@, self.notes));
            assert(es[4] == ("pr"@, pr));
            assert(es[5] == ("sb"@, sb));
            assert(es[6] == ("sr"@, self.scheduled_date));
            assert(es[7] == ("st"@, st));
            assert(es[8] == ("tg"@, tg));
            assert(es[9] == ("tir"@, self.today_index_reference));
            assert(es[10] == ("tt"@, tt));
            reveal_with_fuel(present_at, 14);
            lemma_put_upto(es, 11, "agr"@);
            lemma_put_upto(es, 11, "ar"@);
            lemma_put_upto(es, 11, "md"@);
            lemma_put_upto(es, 11, "nt"@);
            lemma_put_upto(es, 11, "pr"@);
            lemma_put_upto(es, 11, "sb"@);
            lemma_put_upto(es, 11, "sr"@);
            lemma_put_upto(es, 11, "st"@);
            lemma_put_upto(es, 11, "tg"@);
            lemma_put_upto(es, 11, "tir"@);
            lemma_put_upto(es, 11, "tt"@);
            assert forall|k: Seq<char>| #[trigger] m@.contains_key(k) implies set!["agr"@, "ar"@, "md"@, "nt"@, "pr"@, "sb"@, "sr"@, "st"@, "tg"@, "tir"@, "tt"@].contains(k) by {
                lemma_put_upto(es, 11, k);
            }
            assert(task_patch_props(self, m@));
        }
        m
    }
}

impl ChecklistItemPatch {
    /// Whether no field is set.
    pub fn is_empty(&self) -> (r: bool)
        ensures
            r == checklist_patch_unset(*self),
    {
        self.title.is_none() && self.status.is_none() && self.task_ids.is_none() && self.sort_index.is_none()
            && self.creation_date.is_none() && self.modification_date.is_none()
    }

    /// The properties that carry the patch.
    pub fn into_properties(self) -> (r: KeyMap<JsonValue>)
        ensures
            r.wf(),
            checklist_patch_props(self, r@),
    {
        let cd = millis_json(self.creation_date);
        let ix = int_json(self.sort_index);
        let md = millis_json(self.modification_date);
        let ss = int_json(match self.status {
            Some(x) => Some(i32::from(x)),
            None => None,
        });
        let ts = texts_json(&self.task_ids);
        let tt = text_json(&self.title);
        let entries: Vec<(&str, Option<JsonValue>)> = vec![
            ("cd", cd),
            ("ix", ix),
            ("md", md),
            ("ss", ss),
            ("ts", ts),
            ("tt", tt),
        ];
        let ghost es = entry_views(entries@);
        let m = props_from(entries);
        proof {
            reveal_strlit("cd");
            assert("cd"@.len() == 2 && "cd"@[0] == 'c' && "cd"@[1] == 'd');
            reveal_strlit("ix");
            assert("ix"@.len() == 2 && "ix"@[0] == 'i' && "ix"@[1] == 'x');
            reveal_strlit("md");
            assert("md"@.len() == 2 && "md"@[0] == 'm' && "md"@[1] == 'd');
            reveal_strlit("ss");
            assert("ss"@.len() == 2 && "ss"@[0] == 's' && "ss"@[1] == 's');
            reveal_strlit("ts");
            assert("ts"@.len() == 2 && "ts"@[0] == 't' && "ts"@[1] == 's');
            reveal_strlit("tt");
            assert("tt"@.len() == 2 && "tt"@[0] == 't' && "tt"@[1] == 't');
            assert(es.len() == 6);
            assert(es[0] == ("cd"@, cd));
            assert(es[1] == ("ix"@, ix));
            assert(es[2] == ("md"@, md));
            assert(es[3] == ("ss"@, ss));
            assert(es[4] == ("ts"@, ts));
            assert(es[5] == ("tt"@, tt));
            reveal_with_fuel(present_at, 9);
            lemma_put_upto(es, 6, "cd"@);
            lemma_put_upto(es, 6, "ix"@);
            lemma_put_upto(es, 6, "md"@);
            lemma_put_upto(es, 6, "ss"@);
            lemma_put_upto(es, 6, "ts"@);
            lemma_put_upto(es, 6, "tt"@);
            assert forall|k: Seq<char>| #[trigger] m@.contains_key(k) implies set!["cd"@, "ix"@, "md"@, "ss"@, "ts"@, "tt"@].contains(k) by {
                lemma_put_upto(es, 6, k);
            }
            assert(checklist_patch_props(self, m@));
        }
        m
    }
}

impl TagPatch {
    /// Whether no field is set.
    pub fn is_empty(&self) -> (r: bool)
        ensures
            r == tag_patch_unset(*self),
    {
        self.title.is_none() && self.parent_ids.is_none() && self.modification_date.is_none()
    }

    /// The properties that carry the patch.
    pub fn into_properties(self) -> (r: KeyMap<JsonValue>)
        ensures
            r.wf(),
            tag_patch_props(self, r@),
    {
        let md = millis_json(self.modification_date);
        let pn = texts_json(&self.parent_ids);
        let tt = text_json(&self.title);
        let entries: Vec<(&str, Option<JsonValue>)> = vec![
            ("md", md),
            ("pn", pn),
            ("tt", tt),
        ];
        let ghost es = entry_views(entries@);
        let m = props_from(entries);
        proof {
            reveal_strlit("md");
            assert("md"@.len() == 2 && "md"@[0] == 'm' && "md"@[1] == 'd');
            reveal_strlit("pn");
            assert("pn"@.len() == 2 && "pn"@[0] == 'p' && "pn"@[1] == 'n');
            reveal_strlit("tt");
            assert("tt"@.len() == 2 && "tt"@[0] == 't' && "tt"@[1] == 't');
            assert(es.len() == 3);
            assert(es[0] == ("md"@, md));
            assert(es[1] == ("pn"@, pn));
            assert(es[2] == ("tt"@, tt));
            reveal_with_fuel(present_at, 4);
            lemma_put_upto(es, 3, "md"@);
            lemma_put_upto(es, 3, "pn"@);
            lemma_put_upto(es, 3, "tt"@);
            assert forall|k: Seq<char>| #[trigger] m@.contains_key(k) implies set!["md"@, "pn"@, "tt"@].contains(k) by {
                lemma_put_upto(es, 3, k);
            }
            assert(tag_patch_props(self, m@));
        }
        m
    }
}

impl AreaPatch {
    /// Whether no field is set.
    pub fn is_empty(&self) -> (r: bool)
        ensures
            r == area_patch_unset(*self),
    {
        self.title.is_none() && self.tag_ids.is_none() && self.modification_date.is_none()
    }

    /// The properties that carry the patch.
    pub fn into_properties(self) -> (r: KeyMap<JsonValue>)
        ensures
            r.wf(),
            area_patch_props(self, r@),
    {
        let md = millis_json(self.modification_date);
        let tg = texts_json(&self.tag_ids);
        let tt = text_json(&self.title);
        let entries: Vec<(&str, Option<JsonValue>)> = vec![
            ("md", md),
            ("tg", tg),
            ("tt", tt),
        ];
        let ghost es = entry_views(entries@);
        let m = props_from(entries);
        proof {
            reveal_strlit("md");
            assert("md"@.len() == 2 && "md"@[0] == 'm' && "md"@[1] == 'd');
            reveal_strlit("tg");
            assert("tg"@.len() == 2 && "tg"@[0] == 't' && "tg"@[1] == 'g');
            reveal_strlit("tt");
            assert("tt"@.len() == 2 && "tt"@[0] == 't' && "tt"@[1] == 't');
            assert(es.len() == 3);
            assert(es[0] == ("md"@, md));
            assert(es[1] == ("tg"@, tg));
            assert(es[2] == ("tt"@, tt));
            reveal_with_fuel(present_at, 4);
            lemma_put_upto(es, 3, "md"@);
            lemma_put_upto(es, 3, "tg"@);
            lemma_put_upto(es, 3, "tt"@);
            assert forall|k: Seq<char>| #[trigger] m@.contains_key(k) implies set!["md"@, "tg"@, "tt"@].contains(k) by {
                lemma_put_upto(es, 3, k);
            }
            assert(area_patch_props(self, m@));
        }
        m
    }
}

/// A task patch sends no property exactly when it sets no field.
pub proof fn lemma_task_patch_empty(p: TaskPatch, m: Map<Seq<char>, JsonValue>)
    requires
        task_patch_props(p, m),
    ensures
        (m =~= Map::empty()) <==> task_patch_unset(p),
{
    if task_patch_unset(p) {
        assert forall|k: Seq<char>| !#[trigger] m.contains_key(k) by {
            if m.contains_key(k) {
                assert(set!["agr"@, "ar"@, "md"@, "nt"@, "pr"@, "sb"@, "sr"@, "st"@, "tg"@, "tir"@, "tt"@].contains(k));
            }
        }
    }
}

/// A checklist item patch sends no property exactly when it sets no field.
pub proof fn lemma_checklist_patch_empty(p: ChecklistItemPatch, m: Map<Seq<char>, JsonValue>)
    requires
        checklist_patch_props(p, m),
    ensures
        (m =~= Map::empty()) <==> checklist_patch_unset(p),
{
    if checklist_patch_unset(p) {
        assert forall|k: Seq<char>| !#[trigger] m.contains_key(k) by {
            if m.contains_key(k) {
                assert(set!["cd"@, "ix"@, "md"@, "ss"@, "ts"@, "tt"@].contains(k));
            }
        }
    }
}

/// A tag patch sends no property exactly when it sets no field.
pub proof fn lemma_tag_patch_empty(p: TagPatch, m: Map<Seq<char>, JsonValue>)
    requires
        tag_patch_props(p, m),
    ensures
        (m =~= Map::empty()) <==> tag_patch_unset(p),
{
    if tag_patch_unset(p) {
        assert forall|k: Seq<char>| !#[trigger] m.contains_key(k) by {
            if m.contains_key(k) {
                assert(set!["md"@, "pn"@, "tt"@].contains(k));
            }
        }
    }
}

/// An area patch sends no property exactly when it sets no field.
pub proof fn lemma_area_patch_empty(p: AreaPatch, m: Map<Seq<char>, JsonValue>)
    requires
        area_patch_props(p, m),
    ensures
        (m =~= Map::empty()) <==> area_patch_unset(p),
{
    if area_patch_unset(p) {
        assert forall|k: Seq<char>| !#[trigger] m.contains_key(k) by {
            if m.contains_key(k) {
                assert(set!["md"@, "tg"@, "tt"@].contains(k));
            }
        }
    }
}

} // verus!
