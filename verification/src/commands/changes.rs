//! Change sets as the commands state them: property values, objects and
//! the maps of objects a command commits.

use vstd::prelude::*;
use crate::commands::{str_is, strs_are};
use crate::common::note_value;
use crate::json::{JsonValue, int_value};
use crate::keymap::KeyMap;
use crate::text::owned;
use crate::wire::{EntityType, OperationType, WireObject};

verus! {

/// A property value as the edits write it.
pub enum PVal {
    Null,
    Int(i64),
    Text(Seq<char>),
    Texts(Seq<Seq<char>>),
    Millis(i64),
    /// The note value of a text, with its checksum.
    Note(Seq<char>),
    /// The note value of an empty note.
    EmptyNote,
    /// An empty conflict-override object.
    Overrides,
    Bool(bool),
}

/// The entries of the empty note value.
pub open spec fn empty_note(es: Seq<(String, JsonValue)>) -> bool {
    &&& es.len() == 4
    &&& es[0].0@ == "_t"@ && str_is(es[0].1, "tx"@)
    &&& es[1].0@ == "t"@ && es[1].1 == int_value(1)
    &&& es[2].0@ == "ch"@ && es[2].1 == int_value(0)
    &&& es[3].0@ == "v"@ && str_is(es[3].1, seq![])
}

/// `v` is the JSON form of `p`.
pub open spec fn pval_is(v: JsonValue, p: PVal) -> bool {
    match p {
        PVal::Null => v == JsonValue::Null,
        PVal::Int(i) => v == int_value(i),
        PVal::Text(s) => str_is(v, s),
        PVal::Texts(ss) => strs_are(v, ss),
        PVal::Millis(ms) => v == JsonValue::Millis(ms),
        PVal::Note(t) => v matches JsonValue::Object(es) && note_value(t, es@),
        PVal::EmptyNote => v matches JsonValue::Object(es) && empty_note(es@),
        PVal::Overrides => crate::commands::new::overrides_ok(v),
        PVal::Bool(b) => v == JsonValue::Bool(b),
    }
}

/// The property map `m` is the JSON form of `s`.
pub open spec fn props_are(m: Map<Seq<char>, JsonValue>, s: Map<Seq<char>, PVal>) -> bool {
    &&& m.dom() == s.dom()
    &&& forall|k: Seq<char>| #[trigger] s.contains_key(k) ==> pval_is(m[k], s[k])
}

/// An object of a change set: operation, entity kind and properties.
pub type ObjSpec = (OperationType, EntityType, Map<Seq<char>, PVal>);

/// `o` is the wire form of `s`.
pub open spec fn obj_matches(o: WireObject, s: ObjSpec) -> bool {
    &&& o.operation_type == s.0
    &&& o.entity_type == Some(s.1)
    &&& o.properties.wf()
    &&& props_are(o.properties@, s.2)
}

/// The change set `w` is the wire form of `s`.
pub open spec fn changes_are(w: Map<Seq<char>, WireObject>, s: Map<Seq<char>, ObjSpec>) -> bool {
    &&& w.dom() == s.dom()
    &&& forall|k: Seq<char>| #[trigger] s.contains_key(k) ==> obj_matches(w[k], s[k])
}

pub proof fn lemma_props_insert(m: Map<Seq<char>, JsonValue>, s: Map<Seq<char>, PVal>, k: Seq<char>, v: JsonValue, p: PVal)
    requires
        props_are(m, s),
        pval_is(v, p),
    ensures
        props_are(m.insert(k, v), s.insert(k, p)),
{
    assert(m.insert(k, v).dom() =~= s.insert(k, p).dom());
}

pub proof fn lemma_changes_insert(w: Map<Seq<char>, WireObject>, s: Map<Seq<char>, ObjSpec>, k: Seq<char>, o: WireObject, x: ObjSpec)
    requires
        changes_are(w, s),
        obj_matches(o, x),
    ensures
        changes_are(w.insert(k, o), s.insert(k, x)),
{
    assert(w.insert(k, o).dom() =~= s.insert(k, x).dom());
}

/// An empty conflict-override object (`{"_t": "oo", "sn": {}}`).
pub fn overrides_value() -> (r: JsonValue)
    ensures
        pval_is(r, PVal::Overrides),
{
    let mut xx: Vec<(String, JsonValue)> = Vec::new();
    xx.push((owned("_t"), JsonValue::string("oo")));
    xx.push((owned("sn"), JsonValue::Object(Vec::new())));
    JsonValue::Object(xx)
}

pub fn put(m: &mut KeyMap<JsonValue>, Ghost(s): Ghost<Map<Seq<char>, PVal>>, key: &str, v: JsonValue, Ghost(p): Ghost<PVal>)
    requires
        old(m).wf(),
        props_are(old(m)@, s),
        pval_is(v, p),
    ensures
        final(m).wf(),
        props_are(final(m)@, s.insert(key@, p)),
{
    proof {
        lemma_props_insert(old(m)@, s, key@, v, p);
    }
    m.insert(owned(key), v);
}

/// A change set of one object.
pub fn one_change(uuid: String, o: WireObject, Ghost(x): Ghost<ObjSpec>) -> (w: KeyMap<WireObject>)
    requires
        obj_matches(o, x),
    ensures
        w.wf(),
        changes_are(w@, map![uuid@ => x]),
{
    let mut w: KeyMap<WireObject> = KeyMap::new();
    proof {
        assert(w@.dom() =~= Map::<Seq<char>, ObjSpec>::empty().dom());
        lemma_changes_insert(w@, Map::empty(), uuid@, o, x);
        assert(Map::<Seq<char>, ObjSpec>::empty().insert(uuid@, x) =~= map![uuid@ => x]);
    }
    w.insert(uuid, o);
    w
}

/// A plan that commits one object and then prints one line.
pub open spec fn writes_one(p: crate::commands::CommandPlan, uuid: Seq<char>, x: ObjSpec, line: Seq<char>, fail: Seq<char>) -> bool {
    &&& p.notes@.len() == 0
    &&& p.changes matches Some(w) && w.wf() && changes_are(w@, map![uuid => x])
    &&& p.done_lines@.len() == 1
    &&& p.done_lines@[0]@ == line
    &&& p.fail_prefix@ == fail
}

/// The empty property map.
pub fn no_props() -> (m: KeyMap<JsonValue>)
    ensures
        m.wf(),
        props_are(m@, Map::empty()),
{
    let m: KeyMap<JsonValue> = KeyMap::new();
    proof {
        assert(m@.dom() =~= Map::<Seq<char>, PVal>::empty().dom());
    }
    m
}

} // verus!
