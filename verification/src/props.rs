//! Reading typed fields out of a replayed object's properties.

use vstd::prelude::*;
use crate::json::{JsonValue, int_of, truncated_of, bool_of, str_of, member};
use crate::keymap::KeyMap;
use crate::text::{trimmed, trim};

verus! {

/// Property maps, by view.
pub type Props = Map<Seq<char>, JsonValue>;

/// The value stored under `key`, if any.
pub open spec fn prop(p: Props, key: Seq<char>) -> Option<JsonValue> {
    if p.contains_key(key) {
        Some(p[key])
    } else {
        None
    }
}

/// An integer field read as `i64` and cast to `i32`, or `default`.
pub open spec fn prop_i32(p: Props, key: Seq<char>, default: i32) -> i32 {
    match prop(p, key) {
        Some(v) => match int_of(v) {
            Some(i) => i as i32,
            None => default,
        },
        None => default,
    }
}

/// An integer field read as `i64`.
pub open spec fn prop_i64(p: Props, key: Seq<char>) -> Option<i64> {
    match prop(p, key) {
        Some(v) => int_of(v),
        None => None,
    }
}

/// A numeric field read as a float and truncated to whole seconds.
pub open spec fn prop_secs(p: Props, key: Seq<char>) -> Option<i64> {
    match prop(p, key) {
        Some(v) => truncated_of(v),
        None => None,
    }
}

/// A boolean field, or `default`.
pub open spec fn prop_bool(p: Props, key: Seq<char>, default: bool) -> bool {
    match prop(p, key) {
        Some(v) => match bool_of(v) {
            Some(b) => b,
            None => default,
        },
        None => default,
    }
}

/// A string field.
pub open spec fn prop_str(p: Props, key: Seq<char>) -> Option<Seq<char>> {
    match prop(p, key) {
        Some(v) => str_of(v),
        None => None,
    }
}

/// The strings among a list of values, in order.
pub open spec fn strings_in(s: Seq<JsonValue>) -> Seq<Seq<char>>
    decreases s.len(),
{
    if s.len() == 0 {
        seq![]
    } else {
        match s[0] {
            JsonValue::Str(t) => seq![t@] + strings_in(s.drop_first()),
            _ => strings_in(s.drop_first()),
        }
    }
}

/// A list-of-strings field (non-string members skipped), empty when absent.
pub open spec fn prop_str_list(p: Props, key: Seq<char>) -> Seq<Seq<char>> {
    match prop(p, key) {
        Some(JsonValue::Array(items)) => strings_in(items@),
        _ => seq![],
    }
}

/// The first element of a list, if any.
pub open spec fn first_of(s: Seq<Seq<char>>) -> Option<Seq<char>> {
    if s.len() > 0 {
        Some(s[0])
    } else {
        None
    }
}

/// The view of an optional string.
pub open spec fn opt_view(o: Option<String>) -> Option<Seq<char>> {
    match o {
        Some(s) => Some(s@),
        None => None,
    }
}

/// The views of a list of strings.
pub open spec fn list_view(v: Seq<String>) -> Seq<Seq<char>> {
    v.map_values(|s: String| s@)
}

/// `s` when it is not empty once trimmed.
pub open spec fn nonblank(s: Seq<char>) -> Option<Seq<char>> {
    if trimmed(s).len() == 0 {
        None
    } else {
        Some(s)
    }
}

/// The `"r"` texts of the paragraph objects of a structured note, in order.
pub open spec fn paragraph_texts(ps: Seq<JsonValue>) -> Seq<Seq<char>>
    decreases ps.len(),
{
    if ps.len() == 0 {
        seq![]
    } else {
        match member(ps[0], "r"@) {
            Some(JsonValue::Str(t)) => seq![t@] + paragraph_texts(ps.drop_first()),
            _ => paragraph_texts(ps.drop_first()),
        }
    }
}

/// Lines joined with `"\n"`.
pub open spec fn join_lines(lines: Seq<Seq<char>>) -> Seq<char>
    decreases lines.len(),
{
    if lines.len() == 0 {
        seq![]
    } else if lines.len() == 1 {
        lines[0]
    } else {
        lines[0] + seq!['\n'] + join_lines(lines.drop_first())
    }
}

/// The notes of a task (`"nt"`): a plain string (trimmed), a text note
/// (`{"t": 1, "v": ...}`, trimmed) or a paragraph note (`{"t": 2, "ps": [...]}`,
/// lines joined); blank notes count as none.
pub open spec fn notes_of(v: Option<JsonValue>) -> Option<Seq<char>> {
    match v {
        Some(JsonValue::Str(s)) => nonblank(trimmed(s@)),
        Some(JsonValue::Object(entries)) => {
            let t = match member(JsonValue::Object(entries), "t"@) {
                Some(x) => int_of(x),
                None => None,
            };
            if t == Some(1i64) {
                match member(JsonValue::Object(entries), "v"@) {
                    Some(JsonValue::Str(s)) => nonblank(trimmed(s@)),
                    _ => None,
                }
            } else if t == Some(2i64) {
                let ps = match member(JsonValue::Object(entries), "ps"@) {
                    Some(JsonValue::Array(items)) => items@,
                    _ => seq![],
                };
                nonblank(join_lines(paragraph_texts(ps)))
            } else {
                None
            }
        },
        _ => None,
    }
}

/// The first second chrono represents: 1 January of the year -262143, UTC.
pub const MIN_TIMESTAMP: i64 = -8334601228800i64;

/// The last second chrono represents: 31 December of the year 262142,
/// 23:59:59 UTC.
pub const MAX_TIMESTAMP: i64 = 8210266876799i64;

/// Whether `secs` is a timestamp that `Utc.timestamp_opt(secs, 0).single()`
/// accepts: one within chrono's range of dates.
pub open spec fn utc_timestamp_valid(secs: i64) -> bool {
    MIN_TIMESTAMP <= secs <= MAX_TIMESTAMP
}

/// Whether chrono can represent the instant `secs`.
pub(crate) fn timestamp_representable(secs: i64) -> (r: bool)
    ensures
        r == utc_timestamp_valid(secs),
{
    MIN_TIMESTAMP <= secs && secs <= MAX_TIMESTAMP
}

/// A date field: the truncated seconds when chrono can represent them.
pub open spec fn prop_date(p: Props, key: Seq<char>) -> Option<i64> {
    match prop_secs(p, key) {
        Some(t) => if utc_timestamp_valid(t) {
            Some(t)
        } else {
            None
        },
        None => None,
    }
}

/// Reads an integer property as `i32`, or `default` when it is absent or not an integer.
pub fn read_i32(p: &KeyMap<JsonValue>, key: &str, default: i32) -> (r: i32)
    requires
        p.wf(),
    ensures
        r == prop_i32(p@, key@, default),
{
    match p.get(key) {
        Some(v) => match v.as_i64() {
            Some(i) => i as i32,
            None => default,
        },
        None => default,
    }
}

/// Reads an integer property, if present.
pub fn read_i64(p: &KeyMap<JsonValue>, key: &str) -> (r: Option<i64>)
    requires
        p.wf(),
    ensures
        r == prop_i64(p@, key@),
{
    match p.get(key) {
        Some(v) => v.as_i64(),
        None => None,
    }
}

/// Reads a date property: whole seconds of a numeric timestamp that is a
/// representable instant.
pub fn read_date(p: &KeyMap<JsonValue>, key: &str) -> (r: Option<i64>)
    requires
        p.wf(),
    ensures
        r == prop_date(p@, key@),
{
    let secs = match p.get(key) {
        Some(v) => v.as_truncated(),
        None => None,
    };
    match secs {
        Some(t) => if timestamp_representable(t) {
            Some(t)
        } else {
            None
        },
        None => None,
    }
}

/// Reads a boolean property, or `default`.
pub fn read_bool(p: &KeyMap<JsonValue>, key: &str, default: bool) -> (r: bool)
    requires
        p.wf(),
    ensures
        r == prop_bool(p@, key@, default),
{
    match p.get(key) {
        Some(v) => match v.as_bool() {
            Some(b) => b,
            None => default,
        },
        None => default,
    }
}

/// Reads a string property, if present.
pub fn read_str(p: &KeyMap<JsonValue>, key: &str) -> (r: Option<String>)
    requires
        p.wf(),
    ensures
        opt_view(r) == prop_str(p@, key@),
{
    match p.get(key) {
        Some(v) => match v.as_str() {
            Some(s) => Some(s.clone()),
            None => None,
        },
        None => None,
    }
}

/// The strings among `items`.
pub fn collect_strings(items: &Vec<JsonValue>) -> (r: Vec<String>)
    ensures
        list_view(r@) == strings_in(items@),
{
    let mut out: Vec<String> = Vec::new();
    let mut i: usize = items.len();
    let mut rev: Vec<String> = Vec::new();
    proof {
        assert(items@.skip(items@.len() as int) =~= Seq::<JsonValue>::empty());
        assert(list_view(rev@) =~= Seq::<Seq<char>>::empty());
    }
    while i > 0
        invariant
            i <= items@.len(),
            list_view(rev@).reverse() == strings_in(items@.skip(i as int)),
        decreases i,
    {
        i -= 1;
        proof {
            assert(items@.skip(i as int).drop_first() =~= items@.skip(i + 1));
            assert(items@.skip(i as int)[0] == items@[i as int]);
        }
        match &items[i] {
            JsonValue::Str(s) => {
                let ghost before = list_view(rev@);
                rev.push(s.clone());
                proof {
                    assert(list_view(rev@) =~= before.push(s@));
                    assert(before.push(s@).reverse() =~= seq![s@] + before.reverse());
                }
            },
            _ => {},
        }
    }
    proof {
        assert(items@.skip(0) =~= items@);
    }
    let mut j: usize = rev.len();
    while j > 0
        invariant
            j <= rev@.len(),
            list_view(out@) == list_view(rev@).reverse().take(rev@.len() - j),
        decreases j,
    {
        j -= 1;
        let ghost before = list_view(out@);
        out.push(rev[j].clone());
        proof {
            let lv = list_view(rev@);
            assert(lv.reverse()[rev@.len() - 1 - j] == lv[j as int]);
            assert(list_view(out@) =~= before.push(lv[j as int]));
            assert(lv.reverse().take(rev@.len() - j) =~= lv.reverse().take(rev@.len() - 1 - j).push(
                lv[j as int],
            ));
        }
    }
    proof {
        assert(list_view(rev@).reverse().take(rev@.len() as int) =~= list_view(rev@).reverse());
    }
    out
}

/// Reads a list-of-strings property; members that are not strings are skipped.
pub fn read_str_list(p: &KeyMap<JsonValue>, key: &str) -> (r: Vec<String>)
    requires
        p.wf(),
    ensures
        list_view(r@) == prop_str_list(p@, key@),
{
    match p.get(key) {
        Some(JsonValue::Array(items)) => collect_strings(items),
        _ => {
            let r: Vec<String> = Vec::new();
            assert(list_view(r@) =~= Seq::<Seq<char>>::empty());
            r
        },
    }
}

/// The first string of a list.
pub fn first_string(v: &Vec<String>) -> (r: Option<String>)
    ensures
        opt_view(r) == first_of(list_view(v@)),
{
    if v.len() > 0 {
        Some(v[0].clone())
    } else {
        None
    }
}

fn nonblank_string(s: String) -> (r: Option<String>)
    ensures
        opt_view(r) == nonblank(s@),
{
    let t = trim(s.as_str());
    if t.as_str().is_empty() {
        None
    } else {
        Some(s)
    }
}

fn paragraphs(ps: &Vec<JsonValue>) -> (r: Vec<String>)
    ensures
        list_view(r@) == paragraph_texts(ps@),
{
    let mut rev: Vec<String> = Vec::new();
    let mut i: usize = ps.len();
    proof {
        assert(ps@.skip(ps@.len() as int) =~= Seq::<JsonValue>::empty());
        assert(list_view(rev@) =~= Seq::<Seq<char>>::empty());
    }
    while i > 0
        invariant
            i <= ps@.len(),
            list_view(rev@).reverse() == paragraph_texts(ps@.skip(i as int)),
        decreases i,
    {
        i -= 1;
        proof {
            assert(ps@.skip(i as int).drop_first() =~= ps@.skip(i + 1));
            assert(ps@.skip(i as int)[0] == ps@[i as int]);
        }
        match ps[i].get("r") {
            Some(JsonValue::Str(s)) => {
                let ghost before = list_view(rev@);
                rev.push(s.clone());
                proof {
                    assert(list_view(rev@) =~= before.push(s@));
                    assert(before.push(s@).reverse() =~= seq![s@] + before.reverse());
                }
            },
            _ => {},
        }
    }
    proof {
        assert(ps@.skip(0) =~= ps@);
    }
    let mut out: Vec<String> = Vec::new();
    let mut j: usize = rev.len();
    while j > 0
        invariant
            j <= rev@.len(),
            list_view(out@) == list_view(rev@).reverse().take(rev@.len() - j),
        decreases j,
    {
        j -= 1;
        let ghost before = list_view(out@);
        out.push(rev[j].clone());
        proof {
            let lv = list_view(rev@);
            assert(lv.reverse()[rev@.len() - 1 - j] == lv[j as int]);
            assert(list_view(out@) =~= before.push(lv[j as int]));
            assert(lv.reverse().take(rev@.len() - j) =~= lv.reverse().take(rev@.len() - 1 - j).push(
                lv[j as int],
            ));
        }
    }
    proof {
        assert(list_view(rev@).reverse().take(rev@.len() as int) =~= list_view(rev@).reverse());
    }
    out
}

/// Lines joined with newlines.
pub fn join_with_newlines(lines: &Vec<String>) -> (r: String)
    ensures
        r@ == join_lines(list_view(lines@)),
{
    let mut out = String::new();
    let n = lines.len();
    if n == 0 {
        return out;
    }
    let mut i: usize = n;
    proof {
        assert(list_view(lines@).skip(n as int) =~= Seq::<Seq<char>>::empty());
    }
    // Build from the back: out holds join_lines of lines[i..].
    out = lines[n - 1].clone();
    i = n - 1;
    proof {
        assert(list_view(lines@).skip(i as int) =~= seq![lines@[i as int]@]);
    }
    while i > 0
        invariant
            0 <= i < n,
            n == lines@.len(),
            out@ == join_lines(list_view(lines@).skip(i as int)),
        decreases i,
    {
        i -= 1;
        let mut piece = lines[i].clone();
        crate::text::push_char(&mut piece, '\n');
        piece.append(out.as_str());
        proof {
            let lv = list_view(lines@);
            assert(lv.skip(i as int).drop_first() =~= lv.skip(i + 1));
            assert(lv.skip(i as int)[0] == lines@[i as int]@);
            assert(lv.skip(i as int).len() >= 2);
        }
        out = piece;
    }
    proof {
        assert(list_view(lines@).skip(0) =~= list_view(lines@));
    }
    out
}

/// Reads the notes of a task from its `"nt"` value.
pub fn read_notes(v: Option<&JsonValue>) -> (r: Option<String>)
    ensures
        opt_view(r) == notes_of(
            match v {
                Some(x) => Some(*x),
                None => None,
            },
        ),
{
    match v {
        Some(JsonValue::Str(s)) => nonblank_string(trim(s.as_str())),
        Some(JsonValue::Object(entries)) => {
            let obj = v.unwrap();
            let t = match obj.get("t") {
                Some(x) => x.as_i64(),
                None => None,
            };
            if t == Some(1i64) {
                match obj.get("v") {
                    Some(JsonValue::Str(s)) => nonblank_string(trim(s.as_str())),
                    _ => None,
                }
            } else if t == Some(2i64) {
                let lines = match obj.get("ps") {
                    Some(JsonValue::Array(items)) => paragraphs(items),
                    _ => {
                        let e: Vec<String> = Vec::new();
                        proof {
                            assert(list_view(e@) =~= paragraph_texts(Seq::<JsonValue>::empty()));
                        }
                        e
                    },
                };
                nonblank_string(join_with_newlines(&lines))
            } else {
                None
            }
        },
        _ => None,
    }
}

} // verus!
