//! The commands: what each one decides from the store and its arguments.
//! Each plan lists the messages to report, the history item to commit, and
//! the lines to print once the commit went through.

pub mod changes;
pub mod mark;
pub mod new;
pub mod delete;
pub mod schedule;
pub mod edit;
pub mod tags;
pub mod areas;
pub mod reorder;
pub mod projects;
pub mod inbox;
pub mod dispatch;
pub mod today;

use vstd::prelude::*;
use crate::json::JsonValue;
use crate::keymap::KeyMap;
use crate::replay::WireItem;
use crate::wire::{EntityType, OperationType, WireObject};

verus! {

/// The `--detailed` flag of the listings: show notes and checklists.
pub struct DetailedArgs {
    pub detailed: bool,
}

/// What a command does: report `notes`; commit `changes`, if any; then print
/// `done_lines`, or, when the commit fails, report `fail_prefix` and the error.
pub struct CommandPlan {
    pub notes: Vec<String>,
    pub changes: Option<WireItem>,
    pub done_lines: Vec<String>,
    pub fail_prefix: String,
}

/// A plan that only reports messages.
pub open spec fn reports_only(p: CommandPlan, notes: Seq<Seq<char>>) -> bool {
    &&& p.changes is None
    &&& p.done_lines@.len() == 0
    &&& crate::text::views(p.notes@) == notes
}

/// `o` is the wire object with this operation, entity kind and properties.
pub open spec fn object_is(
    o: WireObject,
    op: OperationType,
    et: Option<EntityType>,
    props: Map<Seq<char>, JsonValue>,
) -> bool {
    &&& o.operation_type == op
    &&& o.entity_type == et
    &&& o.properties.wf()
    &&& o.properties@ == props
}

/// A plan that only reports messages.
pub fn report(notes: Vec<String>) -> (p: CommandPlan)
    ensures
        reports_only(p, crate::text::views(notes@)),
{
    CommandPlan { notes, changes: None, done_lines: Vec::new(), fail_prefix: String::new() }
}

/// A plan that reports one message.
pub fn report_one(note: String) -> (p: CommandPlan)
    ensures
        reports_only(p, seq![note@]),
{
    let mut notes: Vec<String> = Vec::new();
    notes.push(note);
    let p = report(notes);
    proof {
        assert(crate::text::views(p.notes@) =~= seq![note@]);
    }
    p
}

/// A property map built from pairs.
pub fn props_from(keys: &[&str], values: Vec<JsonValue>) -> (r: KeyMap<JsonValue>)
    requires
        keys@.len() == values@.len(),
    ensures
        r.wf(),
        r@ == props_of(keys@, values@),
{
    let mut r: KeyMap<JsonValue> = KeyMap::new();
    let mut vs = values;
    let ghost vals = values@;
    let mut i: usize = 0;
    proof {
        assert(props_of(keys@.take(0), vals.take(0)) =~= Map::empty());
        assert(vs@ =~= vals.subrange(0, vals.len() as int));
    }
    while i < keys.len()
        invariant
            keys@.len() == vals.len(),
            i <= keys@.len(),
            vs@ == vals.subrange(i as int, vals.len() as int),
            r.wf(),
            r@ == props_of(keys@.take(i as int), vals.take(i as int)),
        decreases keys@.len() - i,
    {
        let v = vs.remove(0);
        proof {
            assert(keys@.take(i + 1).drop_last() =~= keys@.take(i as int));
            assert(vals.take(i + 1).drop_last() =~= vals.take(i as int));
            assert(v == vals[i as int]);
        }
        r.insert(crate::text::owned(keys[i]), v);
        proof {
            assert(vs@ =~= vals.subrange(i + 1, vals.len() as int));
        }
        i += 1;
    }
    proof {
        assert(keys@.take(keys@.len() as int) =~= keys@);
        assert(vals.take(vals.len() as int) =~= vals);
    }
    r
}

/// The property map of key and value lists (later keys win).
pub open spec fn props_of(keys: Seq<&str>, values: Seq<JsonValue>) -> Map<Seq<char>, JsonValue>
    decreases keys.len(),
{
    if keys.len() == 0 || values.len() == 0 {
        Map::empty()
    } else {
        props_of(keys.drop_last(), values.drop_last()).insert(keys.last()@, values.last())
    }
}

/// `v` is the string `s`.
pub open spec fn str_is(v: JsonValue, s: Seq<char>) -> bool {
    v matches JsonValue::Str(x) && x@ == s
}

/// `v` is the list of the strings `ss`.
pub open spec fn strs_are(v: JsonValue, ss: Seq<Seq<char>>) -> bool {
    v matches JsonValue::Array(xs) && xs@.len() == ss.len() && forall|i: int| 0 <= i < ss.len() ==> #[trigger] str_is(xs@[i], ss[i])
}

/// A JSON list of strings.
pub fn json_strs(v: &Vec<String>) -> (r: JsonValue)
    ensures
        strs_are(r, crate::text::views(v@)),
{
    let mut xs: Vec<JsonValue> = Vec::new();
    let mut i: usize = 0;
    while i < v.len()
        invariant
            i <= v@.len(),
            xs@.len() == i,
            forall|k: int| 0 <= k < i ==> #[trigger] str_is(xs@[k], v@[k]@),
        decreases v@.len() - i,
    {
        xs.push(JsonValue::string(v[i].as_str()));
        i += 1;
    }
    JsonValue::Array(xs)
}

/// A JSON list holding one string.
pub fn json_str1(s: &str) -> (r: JsonValue)
    ensures
        strs_are(r, seq![s@]),
{
    let mut xs: Vec<JsonValue> = Vec::new();
    xs.push(JsonValue::string(s));
    JsonValue::Array(xs)
}

/// An empty JSON list.
pub fn json_empty_list() -> (r: JsonValue)
    ensures
        strs_are(r, seq![]),
{
    JsonValue::Array(Vec::new())
}

/// The property keys the commands write are distinct from one another.
pub proof fn lemma_prop_keys_distinct()
    ensures
        "tt"@ != "tp"@,
        "tt"@ != "ss"@,
        "tt"@ != "st"@,
        "tt"@ != "tr"@,
        "tt"@ != "cd"@,
        "tt"@ != "md"@,
        "tt"@ != "nt"@,
        "tt"@ != "xx"@,
        "tt"@ != "rmd"@,
        "tt"@ != "rp"@,
        "tt"@ != "ix"@,
        "tt"@ != "pr"@,
        "tt"@ != "ar"@,
        "tt"@ != "agr"@,
        "tt"@ != "sr"@,
        "tt"@ != "tir"@,
        "tt"@ != "tg"@,
        "tt"@ != "dd"@,
        "tt"@ != "ti"@,
        "tt"@ != "sb"@,
        "tt"@ != "ts"@,
        "tt"@ != "sp"@,
        "tt"@ != "sh"@,
        "tt"@ != "pn"@,
        "tp"@ != "ss"@,
        "tp"@ != "st"@,
        "tp"@ != "tr"@,
        "tp"@ != "cd"@,
        "tp"@ != "md"@,
        "tp"@ != "nt"@,
        "tp"@ != "xx"@,
        "tp"@ != "rmd"@,
        "tp"@ != "rp"@,
        "tp"@ != "ix"@,
        "tp"@ != "pr"@,
        "tp"@ != "ar"@,
        "tp"@ != "agr"@,
        "tp"@ != "sr"@,
        "tp"@ != "tir"@,
        "tp"@ != "tg"@,
        "tp"@ != "dd"@,
        "tp"@ != "ti"@,
        "tp"@ != "sb"@,
        "tp"@ != "ts"@,
        "tp"@ != "sp"@,
        "tp"@ != "sh"@,
        "tp"@ != "pn"@,
        "ss"@ != "st"@,
        "ss"@ != "tr"@,
        "ss"@ != "cd"@,
        "ss"@ != "md"@,
        "ss"@ != "nt"@,
        "ss"@ != "xx"@,
        "ss"@ != "rmd"@,
        "ss"@ != "rp"@,
        "ss"@ != "ix"@,
        "ss"@ != "pr"@,
        "ss"@ != "ar"@,
        "ss"@ != "agr"@,
        "ss"@ != "sr"@,
        "ss"@ != "tir"@,
        "ss"@ != "tg"@,
        "ss"@ != "dd"@,
        "ss"@ != "ti"@,
        "ss"@ != "sb"@,
        "ss"@ != "ts"@,
        "ss"@ != "sp"@,
        "ss"@ != "sh"@,
        "ss"@ != "pn"@,
        "st"@ != "tr"@,
        "st"@ != "cd"@,
        "st"@ != "md"@,
        "st"@ != "nt"@,
        "st"@ != "xx"@,
        "st"@ != "rmd"@,
        "st"@ != "rp"@,
        "st"@ != "ix"@,
        "st"@ != "pr"@,
        "st"@ != "ar"@,
        "st"@ != "agr"@,
        "st"@ != "sr"@,
        "st"@ != "tir"@,
        "st"@ != "tg"@,
        "st"@ != "dd"@,
        "st"@ != "ti"@,
        "st"@ != "sb"@,
        "st"@ != "ts"@,
        "st"@ != "sp"@,
        "st"@ != "sh"@,
        "st"@ != "pn"@,
        "tr"@ != "cd"@,
        "tr"@ != "md"@,
        "tr"@ != "nt"@,
        "tr"@ != "xx"@,
        "tr"@ != "rmd"@,
        "tr"@ != "rp"@,
        "tr"@ != "ix"@,
        "tr"@ != "pr"@,
        "tr"@ != "ar"@,
        "tr"@ != "agr"@,
        "tr"@ != "sr"@,
        "tr"@ != "tir"@,
        "tr"@ != "tg"@,
        "tr"@ != "dd"@,
        "tr"@ != "ti"@,
        "tr"@ != "sb"@,
        "tr"@ != "ts"@,
        "tr"@ != "sp"@,
        "tr"@ != "sh"@,
        "tr"@ != "pn"@,
        "cd"@ != "md"@,
        "cd"@ != "nt"@,
        "cd"@ != "xx"@,
        "cd"@ != "rmd"@,
        "cd"@ != "rp"@,
        "cd"@ != "ix"@,
        "cd"@ != "pr"@,
        "cd"@ != "ar"@,
        "cd"@ != "agr"@,
        "cd"@ != "sr"@,
        "cd"@ != "tir"@,
        "cd"@ != "tg"@,
        "cd"@ != "dd"@,
        "cd"@ != "ti"@,
        "cd"@ != "sb"@,
        "cd"@ != "ts"@,
        "cd"@ != "sp"@,
        "cd"@ != "sh"@,
        "cd"@ != "pn"@,
        "md"@ != "nt"@,
        "md"@ != "xx"@,
        "md"@ != "rmd"@,
        "md"@ != "rp"@,
        "md"@ != "ix"@,
        "md"@ != "pr"@,
        "md"@ != "ar"@,
        "md"@ != "agr"@,
        "md"@ != "sr"@,
        "md"@ != "tir"@,
        "md"@ != "tg"@,
        "md"@ != "dd"@,
        "md"@ != "ti"@,
        "md"@ != "sb"@,
        "md"@ != "ts"@,
        "md"@ != "sp"@,
        "md"@ != "sh"@,
        "md"@ != "pn"@,
        "nt"@ != "xx"@,
        "nt"@ != "rmd"@,
        "nt"@ != "rp"@,
        "nt"@ != "ix"@,
        "nt"@ != "pr"@,
        "nt"@ != "ar"@,
        "nt"@ != "agr"@,
        "nt"@ != "sr"@,
        "nt"@ != "tir"@,
        "nt"@ != "tg"@,
        "nt"@ != "dd"@,
        "nt"@ != "ti"@,
        "nt"@ != "sb"@,
        "nt"@ != "ts"@,
        "nt"@ != "sp"@,
        "nt"@ != "sh"@,
        "nt"@ != "pn"@,
        "xx"@ != "rmd"@,
        "xx"@ != "rp"@,
        "xx"@ != "ix"@,
        "xx"@ != "pr"@,
        "xx"@ != "ar"@,
        "xx"@ != "agr"@,
        "xx"@ != "sr"@,
        "xx"@ != "tir"@,
        "xx"@ != "tg"@,
        "xx"@ != "dd"@,
        "xx"@ != "ti"@,
        "xx"@ != "sb"@,
        "xx"@ != "ts"@,
        "xx"@ != "sp"@,
        "xx"@ != "sh"@,
        "xx"@ != "pn"@,
        "rmd"@ != "rp"@,
        "rmd"@ != "ix"@,
        "rmd"@ != "pr"@,
        "rmd"@ != "ar"@,
        "rmd"@ != "agr"@,
        "rmd"@ != "sr"@,
        "rmd"@ != "tir"@,
        "rmd"@ != "tg"@,
        "rmd"@ != "dd"@,
        "rmd"@ != "ti"@,
        "rmd"@ != "sb"@,
        "rmd"@ != "ts"@,
        "rmd"@ != "sp"@,
        "rmd"@ != "sh"@,
        "rmd"@ != "pn"@,
        "rp"@ != "ix"@,
        "rp"@ != "pr"@,
        "rp"@ != "ar"@,
        "rp"@ != "agr"@,
        "rp"@ != "sr"@,
        "rp"@ != "tir"@,
        "rp"@ != "tg"@,
        "rp"@ != "dd"@,
        "rp"@ != "ti"@,
        "rp"@ != "sb"@,
        "rp"@ != "ts"@,
        "rp"@ != "sp"@,
        "rp"@ != "sh"@,
        "rp"@ != "pn"@,
        "ix"@ != "pr"@,
        "ix"@ != "ar"@,
        "ix"@ != "agr"@,
        "ix"@ != "sr"@,
        "ix"@ != "tir"@,
        "ix"@ != "tg"@,
        "ix"@ != "dd"@,
        "ix"@ != "ti"@,
        "ix"@ != "sb"@,
        "ix"@ != "ts"@,
        "ix"@ != "sp"@,
        "ix"@ != "sh"@,
        "ix"@ != "pn"@,
        "pr"@ != "ar"@,
        "pr"@ != "agr"@,
        "pr"@ != "sr"@,
        "pr"@ != "tir"@,
        "pr"@ != "tg"@,
        "pr"@ != "dd"@,
        "pr"@ != "ti"@,
        "pr"@ != "sb"@,
        "pr"@ != "ts"@,
        "pr"@ != "sp"@,
        "pr"@ != "sh"@,
        "pr"@ != "pn"@,
        "ar"@ != "agr"@,
        "ar"@ != "sr"@,
        "ar"@ != "tir"@,
        "ar"@ != "tg"@,
        "ar"@ != "dd"@,
        "ar"@ != "ti"@,
        "ar"@ != "sb"@,
        "ar"@ != "ts"@,
        "ar"@ != "sp"@,
        "ar"@ != "sh"@,
        "ar"@ != "pn"@,
        "agr"@ != "sr"@,
        "agr"@ != "tir"@,
        "agr"@ != "tg"@,
        "agr"@ != "dd"@,
        "agr"@ != "ti"@,
        "agr"@ != "sb"@,
        "agr"@ != "ts"@,
        "agr"@ != "sp"@,
        "agr"@ != "sh"@,
        "agr"@ != "pn"@,
        "sr"@ != "tir"@,
        "sr"@ != "tg"@,
        "sr"@ != "dd"@,
        "sr"@ != "ti"@,
        "sr"@ != "sb"@,
        "sr"@ != "ts"@,
        "sr"@ != "sp"@,
        "sr"@ != "sh"@,
        "sr"@ != "pn"@,
        "tir"@ != "tg"@,
        "tir"@ != "dd"@,
        "tir"@ != "ti"@,
        "tir"@ != "sb"@,
        "tir"@ != "ts"@,
        "tir"@ != "sp"@,
        "tir"@ != "sh"@,
        "tir"@ != "pn"@,
        "tg"@ != "dd"@,
        "tg"@ != "ti"@,
        "tg"@ != "sb"@,
        "tg"@ != "ts"@,
        "tg"@ != "sp"@,
        "tg"@ != "sh"@,
        "tg"@ != "pn"@,
        "dd"@ != "ti"@,
        "dd"@ != "sb"@,
        "dd"@ != "ts"@,
        "dd"@ != "sp"@,
        "dd"@ != "sh"@,
        "dd"@ != "pn"@,
        "ti"@ != "sb"@,
        "ti"@ != "ts"@,
        "ti"@ != "sp"@,
        "ti"@ != "sh"@,
        "ti"@ != "pn"@,
        "sb"@ != "ts"@,
        "sb"@ != "sp"@,
        "sb"@ != "sh"@,
        "sb"@ != "pn"@,
        "ts"@ != "sp"@,
        "ts"@ != "sh"@,
        "ts"@ != "pn"@,
        "sp"@ != "sh"@,
        "sp"@ != "pn"@,
        "sh"@ != "pn"@,
{
    reveal_strlit("tt");
    reveal_strlit("tp");
    reveal_strlit("ss");
    reveal_strlit("st");
    reveal_strlit("tr");
    reveal_strlit("cd");
    reveal_strlit("md");
    reveal_strlit("nt");
    reveal_strlit("xx");
    reveal_strlit("rmd");
    reveal_strlit("rp");
    reveal_strlit("ix");
    reveal_strlit("pr");
    reveal_strlit("ar");
    reveal_strlit("agr");
    reveal_strlit("sr");
    reveal_strlit("tir");
    reveal_strlit("tg");
    reveal_strlit("dd");
    reveal_strlit("ti");
    reveal_strlit("sb");
    reveal_strlit("ts");
    reveal_strlit("sp");
    reveal_strlit("sh");
    reveal_strlit("pn");
    assert("tt"@[1] != "tp"@[1]);
    assert("tt"@[0] != "ss"@[0]);
    assert("tt"@[0] != "st"@[0]);
    assert("tt"@[1] != "tr"@[1]);
    assert("tt"@[0] != "cd"@[0]);
    assert("tt"@[0] != "md"@[0]);
    assert("tt"@[0] != "nt"@[0]);
    assert("tt"@[0] != "xx"@[0]);
    assert("tt"@.len() != "rmd"@.len());
    assert("tt"@[0] != "rp"@[0]);
    assert("tt"@[0] != "ix"@[0]);
    assert("tt"@[0] != "pr"@[0]);
    assert("tt"@[0] != "ar"@[0]);
    assert("tt"@.len() != "agr"@.len());
    assert("tt"@[0] != "sr"@[0]);
    assert("tt"@.len() != "tir"@.len());
    assert("tt"@[1] != "tg"@[1]);
    assert("tt"@[0] != "dd"@[0]);
    assert("tt"@[1] != "ti"@[1]);
    assert("tt"@[0] != "sb"@[0]);
    assert("tt"@[1] != "ts"@[1]);
    assert("tt"@[0] != "sp"@[0]);
    assert("tt"@[0] != "sh"@[0]);
    assert("tt"@[0] != "pn"@[0]);
    assert("tp"@[0] != "ss"@[0]);
    assert("tp"@[0] != "st"@[0]);
    assert("tp"@[1] != "tr"@[1]);
    assert("tp"@[0] != "cd"@[0]);
    assert("tp"@[0] != "md"@[0]);
    assert("tp"@[0] != "nt"@[0]);
    assert("tp"@[0] != "xx"@[0]);
    assert("tp"@.len() != "rmd"@.len());
    assert("tp"@[0] != "rp"@[0]);
    assert("tp"@[0] != "ix"@[0]);
    assert("tp"@[0] != "pr"@[0]);
    assert("tp"@[0] != "ar"@[0]);
    assert("tp"@.len() != "agr"@.len());
    assert("tp"@[0] != "sr"@[0]);
    assert("tp"@.len() != "tir"@.len());
    assert("tp"@[1] != "tg"@[1]);
    assert("tp"@[0] != "dd"@[0]);
    assert("tp"@[1] != "ti"@[1]);
    assert("tp"@[0] != "sb"@[0]);
    assert("tp"@[1] != "ts"@[1]);
    assert("tp"@[0] != "sp"@[0]);
    assert("tp"@[0] != "sh"@[0]);
    assert("tp"@[0] != "pn"@[0]);
    assert("ss"@[1] != "st"@[1]);
    assert("ss"@[0] != "tr"@[0]);
    assert("ss"@[0] != "cd"@[0]);
    assert("ss"@[0] != "md"@[0]);
    assert("ss"@[0] != "nt"@[0]);
    assert("ss"@[0] != "xx"@[0]);
    assert("ss"@.len() != "rmd"@.len());
    assert("ss"@[0] != "rp"@[0]);
    assert("ss"@[0] != "ix"@[0]);
    assert("ss"@[0] != "pr"@[0]);
    assert("ss"@[0] != "ar"@[0]);
    assert("ss"@.len() != "agr"@.len());
    assert("ss"@[1] != "sr"@[1]);
    assert("ss"@.len() != "tir"@.len());
    assert("ss"@[0] != "tg"@[0]);
    assert("ss"@[0] != "dd"@[0]);
    assert("ss"@[0] != "ti"@[0]);
    assert("ss"@[1] != "sb"@[1]);
    assert("ss"@[0] != "ts"@[0]);
    assert("ss"@[1] != "sp"@[1]);
    assert("ss"@[1] != "sh"@[1]);
    assert("ss"@[0] != "pn"@[0]);
    assert("st"@[0] != "tr"@[0]);
    assert("st"@[0] != "cd"@[0]);
    assert("st"@[0] != "md"@[0]);
    assert("st"@[0] != "nt"@[0]);
    assert("st"@[0] != "xx"@[0]);
    assert("st"@.len() != "rmd"@.len());
    assert("st"@[0] != "rp"@[0]);
    assert("st"@[0] != "ix"@[0]);
    assert("st"@[0] != "pr"@[0]);
    assert("st"@[0] != "ar"@[0]);
    assert("st"@.len() != "agr"@.len());
    assert("st"@[1] != "sr"@[1]);
    assert("st"@.len() != "tir"@.len());
    assert("st"@[0] != "tg"@[0]);
    assert("st"@[0] != "dd"@[0]);
    assert("st"@[0] != "ti"@[0]);
    assert("st"@[1] != "sb"@[1]);
    assert("st"@[0] != "ts"@[0]);
    assert("st"@[1] != "sp"@[1]);
    assert("st"@[1] != "sh"@[1]);
    assert("st"@[0] != "pn"@[0]);
    assert("tr"@[0] != "cd"@[0]);
    assert("tr"@[0] != "md"@[0]);
    assert("tr"@[0] != "nt"@[0]);
    assert("tr"@[0] != "xx"@[0]);
    assert("tr"@.len() != "rmd"@.len());
    assert("tr"@[0] != "rp"@[0]);
    assert("tr"@[0] != "ix"@[0]);
    assert("tr"@[0] != "pr"@[0]);
    assert("tr"@[0] != "ar"@[0]);
    assert("tr"@.len() != "agr"@.len());
    assert("tr"@[0] != "sr"@[0]);
    assert("tr"@.len() != "tir"@.len());
    assert("tr"@[1] != "tg"@[1]);
    assert("tr"@[0] != "dd"@[0]);
    assert("tr"@[1] != "ti"@[1]);
    assert("tr"@[0] != "sb"@[0]);
    assert("tr"@[1] != "ts"@[1]);
    assert("tr"@[0] != "sp"@[0]);
    assert("tr"@[0] != "sh"@[0]);
    assert("tr"@[0] != "pn"@[0]);
    assert("cd"@[0] != "md"@[0]);
    assert("cd"@[0] != "nt"@[0]);
    assert("cd"@[0] != "xx"@[0]);
    assert("cd"@.len() != "rmd"@.len());
    assert("cd"@[0] != "rp"@[0]);
    assert("cd"@[0] != "ix"@[0]);
    assert("cd"@[0] != "pr"@[0]);
    assert("cd"@[0] != "ar"@[0]);
    assert("cd"@.len() != "agr"@.len());
    assert("cd"@[0] != "sr"@[0]);
    assert("cd"@.len() != "tir"@.len());
    assert("cd"@[0] != "tg"@[0]);
    assert("cd"@[0] != "dd"@[0]);
    assert("cd"@[0] != "ti"@[0]);
    assert("cd"@[0] != "sb"@[0]);
    assert("cd"@[0] != "ts"@[0]);
    assert("cd"@[0] != "sp"@[0]);
    assert("cd"@[0] != "sh"@[0]);
    assert("cd"@[0] != "pn"@[0]);
    assert("md"@[0] != "nt"@[0]);
    assert("md"@[0] != "xx"@[0]);
    assert("md"@.len() != "rmd"@.len());
    assert("md"@[0] != "rp"@[0]);
    assert("md"@[0] != "ix"@[0]);
    assert("md"@[0] != "pr"@[0]);
    assert("md"@[0] != "ar"@[0]);
    assert("md"@.len() != "agr"@.len());
    assert("md"@[0] != "sr"@[0]);
    assert("md"@.len() != "tir"@.len());
    assert("md"@[0] != "tg"@[0]);
    assert("md"@[0] != "dd"@[0]);
    assert("md"@[0] != "ti"@[0]);
    assert("md"@[0] != "sb"@[0]);
    assert("md"@[0] != "ts"@[0]);
    assert("md"@[0] != "sp"@[0]);
    assert("md"@[0] != "sh"@[0]);
    assert("md"@[0] != "pn"@[0]);
    assert("nt"@[0] != "xx"@[0]);
    assert("nt"@.len() != "rmd"@.len());
    assert("nt"@[0] != "rp"@[0]);
    assert("nt"@[0] != "ix"@[0]);
    assert("nt"@[0] != "pr"@[0]);
    assert("nt"@[0] != "ar"@[0]);
    assert("nt"@.len() != "agr"@.len());
    assert("nt"@[0] != "sr"@[0]);
    assert("nt"@.len() != "tir"@.len());
    assert("nt"@[0] != "tg"@[0]);
    assert("nt"@[0] != "dd"@[0]);
    assert("nt"@[0] != "ti"@[0]);
    assert("nt"@[0] != "sb"@[0]);
    assert("nt"@[0] != "ts"@[0]);
    assert("nt"@[0] != "sp"@[0]);
    assert("nt"@[0] != "sh"@[0]);
    assert("nt"@[0] != "pn"@[0]);
    assert("xx"@.len() != "rmd"@.len());
    assert("xx"@[0] != "rp"@[0]);
    assert("xx"@[0] != "ix"@[0]);
    assert("xx"@[0] != "pr"@[0]);
    assert("xx"@[0] != "ar"@[0]);
    assert("xx"@.len() != "agr"@.len());
    assert("xx"@[0] != "sr"@[0]);
    assert("xx"@.len() != "tir"@.len());
    assert("xx"@[0] != "tg"@[0]);
    assert("xx"@[0] != "dd"@[0]);
    assert("xx"@[0] != "ti"@[0]);
    assert("xx"@[0] != "sb"@[0]);
    assert("xx"@[0] != "ts"@[0]);
    assert("xx"@[0] != "sp"@[0]);
    assert("xx"@[0] != "sh"@[0]);
    assert("xx"@[0] != "pn"@[0]);
    assert("rmd"@.len() != "rp"@.len());
    assert("rmd"@.len() != "ix"@.len());
    assert("rmd"@.len() != "pr"@.len());
    assert("rmd"@.len() != "ar"@.len());
    assert("rmd"@[0] != "agr"@[0]);
    assert("rmd"@.len() != "sr"@.len());
    assert("rmd"@[0] != "tir"@[0]);
    assert("rmd"@.len() != "tg"@.len());
    assert("rmd"@.len() != "dd"@.len());
    assert("rmd"@.len() != "ti"@.len());
    assert("rmd"@.len() != "sb"@.len());
    assert("rmd"@.len() != "ts"@.len());
    assert("rmd"@.len() != "sp"@.len());
    assert("rmd"@.len() != "sh"@.len());
    assert("rmd"@.len() != "pn"@.len());
    assert("rp"@[0] != "ix"@[0]);
    assert("rp"@[0] != "pr"@[0]);
    assert("rp"@[0] != "ar"@[0]);
    assert("rp"@.len() != "agr"@.len());
    assert("rp"@[0] != "sr"@[0]);
    assert("rp"@.len() != "tir"@.len());
    assert("rp"@[0] != "tg"@[0]);
    assert("rp"@[0] != "dd"@[0]);
    assert("rp"@[0] != "ti"@[0]);
    assert("rp"@[0] != "sb"@[0]);
    assert("rp"@[0] != "ts"@[0]);
    assert("rp"@[0] != "sp"@[0]);
    assert("rp"@[0] != "sh"@[0]);
    assert("rp"@[0] != "pn"@[0]);
    assert("ix"@[0] != "pr"@[0]);
    assert("ix"@[0] != "ar"@[0]);
    assert("ix"@.len() != "agr"@.len());
    assert("ix"@[0] != "sr"@[0]);
    assert("ix"@.len() != "tir"@.len());
    assert("ix"@[0] != "tg"@[0]);
    assert("ix"@[0] != "dd"@[0]);
    assert("ix"@[0] != "ti"@[0]);
    assert("ix"@[0] != "sb"@[0]);
    assert("ix"@[0] != "ts"@[0]);
    assert("ix"@[0] != "sp"@[0]);
    assert("ix"@[0] != "sh"@[0]);
    assert("ix"@[0] != "pn"@[0]);
    assert("pr"@[0] != "ar"@[0]);
    assert("pr"@.len() != "agr"@.len());
    assert("pr"@[0] != "sr"@[0]);
    assert("pr"@.len() != "tir"@.len());
    assert("pr"@[0] != "tg"@[0]);
    assert("pr"@[0] != "dd"@[0]);
    assert("pr"@[0] != "ti"@[0]);
    assert("pr"@[0] != "sb"@[0]);
    assert("pr"@[0] != "ts"@[0]);
    assert("pr"@[0] != "sp"@[0]);
    assert("pr"@[0] != "sh"@[0]);
    assert("pr"@[1] != "pn"@[1]);
    assert("ar"@.len() != "agr"@.len());
    assert("ar"@[0] != "sr"@[0]);
    assert("ar"@.len() != "tir"@.len());
    assert("ar"@[0] != "tg"@[0]);
    assert("ar"@[0] != "dd"@[0]);
    assert("ar"@[0] != "ti"@[0]);
    assert("ar"@[0] != "sb"@[0]);
    assert("ar"@[0] != "ts"@[0]);
    assert("ar"@[0] != "sp"@[0]);
    assert("ar"@[0] != "sh"@[0]);
    assert("ar"@[0] != "pn"@[0]);
    assert("agr"@.len() != "sr"@.len());
    assert("agr"@[0] != "tir"@[0]);
    assert("agr"@.len() != "tg"@.len());
    assert("agr"@.len() != "dd"@.len());
    assert("agr"@.len() != "ti"@.len());
    assert("agr"@.len() != "sb"@.len());
    assert("agr"@.len() != "ts"@.len());
    assert("agr"@.len() != "sp"@.len());
    assert("agr"@.len() != "sh"@.len());
    assert("agr"@.len() != "pn"@.len());
    assert("sr"@.len() != "tir"@.len());
    assert("sr"@[0] != "tg"@[0]);
    assert("sr"@[0] != "dd"@[0]);
    assert("sr"@[0] != "ti"@[0]);
    assert("sr"@[1] != "sb"@[1]);
    assert("sr"@[0] != "ts"@[0]);
    assert("sr"@[1] != "sp"@[1]);
    assert("sr"@[1] != "sh"@[1]);
    assert("sr"@[0] != "pn"@[0]);
    assert("tir"@.len() != "tg"@.len());
    assert("tir"@.len() != "dd"@.len());
    assert("tir"@.len() != "ti"@.len());
    assert("tir"@.len() != "sb"@.len());
    assert("tir"@.len() != "ts"@.len());
    assert("tir"@.len() != "sp"@.len());
    assert("tir"@.len() != "sh"@.len());
    assert("tir"@.len() != "pn"@.len());
    assert("tg"@[0] != "dd"@[0]);
    assert("tg"@[1] != "ti"@[1]);
    assert("tg"@[0] != "sb"@[0]);
    assert("tg"@[1] != "ts"@[1]);
    assert("tg"@[0] != "sp"@[0]);
    assert("tg"@[0] != "sh"@[0]);
    assert("tg"@[0] != "pn"@[0]);
    assert("dd"@[0] != "ti"@[0]);
    assert("dd"@[0] != "sb"@[0]);
    assert("dd"@[0] != "ts"@[0]);
    assert("dd"@[0] != "sp"@[0]);
    assert("dd"@[0] != "sh"@[0]);
    assert("dd"@[0] != "pn"@[0]);
    assert("ti"@[0] != "sb"@[0]);
    assert("ti"@[1] != "ts"@[1]);
    assert("ti"@[0] != "sp"@[0]);
    assert("ti"@[0] != "sh"@[0]);
    assert("ti"@[0] != "pn"@[0]);
    assert("sb"@[0] != "ts"@[0]);
    assert("sb"@[1] != "sp"@[1]);
    assert("sb"@[1] != "sh"@[1]);
    assert("sb"@[0] != "pn"@[0]);
    assert("ts"@[0] != "sp"@[0]);
    assert("ts"@[0] != "sh"@[0]);
    assert("ts"@[0] != "pn"@[0]);
    assert("sp"@[1] != "sh"@[1]);
    assert("sp"@[0] != "pn"@[0]);
    assert("sh"@[0] != "pn"@[0]);
}

} // verus!
