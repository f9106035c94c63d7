//! JSON values as the protocol carries them.
//!
//! Numbers keep what the replay logic reads of them: the value as an `i64`
//! when it is an integer that fits, and the value read as a float and
//! truncated toward zero.  Timestamps that the library writes are kept as
//! milliseconds and leave as seconds with a fractional part.

use vstd::prelude::*;
use crate::text::same_text;

verus! {

/// A JSON value.
pub enum JsonValue {
    Null,
    Bool(bool),
    /// A number: `integer` is its value when it is an integer that fits in `i64`;
    /// `truncated` is its value as a float, truncated toward zero (saturating).
    Number { integer: Option<i64>, truncated: i64 },
    /// The number `millis / 1000` (seconds with a millisecond fraction).
    Millis(i64),
    Str(String),
    Array(Vec<JsonValue>),
    Object(Vec<(String, JsonValue)>),
}

/// The first value stored under `key` in a list of object entries.
pub open spec fn entry_lookup(s: Seq<(String, JsonValue)>, key: Seq<char>) -> Option<JsonValue>
    decreases s.len(),
{
    if s.len() == 0 {
        None
    } else if s[0].0@ == key {
        Some(s[0].1)
    } else {
        entry_lookup(s.drop_first(), key)
    }
}

/// `Value::get(key)`: the member `key` of an object.
pub open spec fn member(v: JsonValue, key: Seq<char>) -> Option<JsonValue> {
    match v {
        JsonValue::Object(entries) => entry_lookup(entries@, key),
        _ => None,
    }
}

/// `Value::as_i64`.
pub open spec fn int_of(v: JsonValue) -> Option<i64> {
    match v {
        JsonValue::Number { integer, truncated } => integer,
        _ => None,
    }
}

/// `Value::as_f64` followed by a cast to `i64`.
pub open spec fn truncated_of(v: JsonValue) -> Option<i64> {
    match v {
        JsonValue::Number { integer, truncated } => Some(truncated),
        JsonValue::Millis(ms) => Some(millis_to_secs(ms)),
        _ => None,
    }
}

/// Seconds in `ms` milliseconds, truncated toward zero.
pub open spec fn millis_to_secs(ms: i64) -> i64 {
    if ms >= 0 {
        (ms / 1000) as i64
    } else {
        (-((-ms) / 1000)) as i64
    }
}

/// `Value::as_bool`.
pub open spec fn bool_of(v: JsonValue) -> Option<bool> {
    match v {
        JsonValue::Bool(b) => Some(b),
        _ => None,
    }
}

/// `Value::as_str`, by view.
pub open spec fn str_of(v: JsonValue) -> Option<Seq<char>> {
    match v {
        JsonValue::Str(s) => Some(s@),
        _ => None,
    }
}

/// The integer `v`, as the library writes it.
pub open spec fn int_value(v: i64) -> JsonValue {
    JsonValue::Number { integer: Some(v), truncated: v }
}

impl JsonValue {
    /// An integer value.
    pub fn integer(v: i64) -> (r: JsonValue)
        ensures
            r == int_value(v),
    {
        JsonValue::Number { integer: Some(v), truncated: v }
    }

    /// A string value.
    pub fn string(s: &str) -> (r: JsonValue)
        ensures
            r matches JsonValue::Str(t) && t@ == s@,
    {
        JsonValue::Str(crate::text::owned(s))
    }

    /// `Value::as_i64`.
    pub fn as_i64(&self) -> (r: Option<i64>)
        ensures
            r == int_of(*self),
    {
        match self {
            JsonValue::Number { integer, truncated } => *integer,
            _ => None,
        }
    }

    /// `Value::as_f64`, truncated toward zero.
    pub fn as_truncated(&self) -> (r: Option<i64>)
        ensures
            r == truncated_of(*self),
    {
        match self {
            JsonValue::Number { integer, truncated } => Some(*truncated),
            JsonValue::Millis(ms) => {
                let m: i128 = *ms as i128;
                let q: i128 = if m >= 0 {
                    m / 1000
                } else {
                    -((-m) / 1000)
                };
                Some(q as i64)
            },
            _ => None,
        }
    }

    /// `Value::as_bool`.
    pub fn as_bool(&self) -> (r: Option<bool>)
        ensures
            r == bool_of(*self),
    {
        match self {
            JsonValue::Bool(b) => Some(*b),
            _ => None,
        }
    }

    /// `Value::as_str`.
    pub fn as_str(&self) -> (r: Option<&String>)
        ensures
            match r {
                Some(s) => str_of(*self) == Some(s@),
                None => str_of(*self) is None,
            },
    {
        match self {
            JsonValue::Str(s) => Some(s),
            _ => None,
        }
    }

    /// `Value::get(key)`.
    pub fn get(&self, key: &str) -> (r: Option<&JsonValue>)
        ensures
            match r {
                Some(v) => member(*self, key@) == Some(*v),
                None => member(*self, key@) is None,
            },
    {
        match self {
            JsonValue::Object(entries) => lookup_entry(entries, key),
            _ => None,
        }
    }
}

proof fn lemma_entry_lookup_prefix(s: Seq<(String, JsonValue)>, key: Seq<char>, i: int)
    requires
        0 <= i <= s.len(),
        forall|j: int| 0 <= j < i ==> #[trigger] s[j].0@ != key,
    ensures
        entry_lookup(s, key) == entry_lookup(s.skip(i), key),
    decreases i,
{
    if i > 0 {
        assert(s[0].0@ != key);
        assert(s.skip(1) =~= s.drop_first());
        assert forall|j: int| 0 <= j < i - 1 implies #[trigger] s.skip(1)[j].0@ != key by {
            assert(s.skip(1)[j] == s[j + 1]);
        }
        lemma_entry_lookup_prefix(s.skip(1), key, i - 1);
        assert(s.skip(1).skip(i - 1) =~= s.skip(i));
    } else {
        assert(s.skip(0) =~= s);
    }
}

/// Where a lookup that succeeds found its value.
pub proof fn lemma_entry_lookup_index(s: Seq<(String, JsonValue)>, key: Seq<char>) -> (i: int)
    requires
        entry_lookup(s, key) is Some,
    ensures
        0 <= i < s.len(),
        s[i].0@ == key,
        entry_lookup(s, key) == Some(s[i].1),
        forall|j: int| 0 <= j < i ==> s[j].0@ != key,
    decreases s.len(),
{
    if s[0].0@ == key {
        0
    } else {
        let k = lemma_entry_lookup_index(s.drop_first(), key);
        assert forall|j: int| 0 <= j < k + 1 implies s[j].0@ != key by {
            if j > 0 {
                assert(s[j] == s.drop_first()[j - 1]);
            }
        }
        k + 1
    }
}

/// A lookup finds the first entry with the key.
pub proof fn lemma_entry_lookup_at(s: Seq<(String, JsonValue)>, key: Seq<char>, i: int)
    requires
        0 <= i < s.len(),
        s[i].0@ == key,
        forall|j: int| 0 <= j < i ==> #[trigger] s[j].0@ != key,
    ensures
        entry_lookup(s, key) == Some(s[i].1),
{
    lemma_entry_lookup_prefix(s, key, i);
    assert(s.skip(i)[0] == s[i]);
}

/// The first value stored under `key` in a list of object entries.
pub fn lookup_entry<'a>(entries: &'a Vec<(String, JsonValue)>, key: &str) -> (r: Option<
    &'a JsonValue,
>)
    ensures
        match r {
            Some(v) => entry_lookup(entries@, key@) == Some(*v),
            None => entry_lookup(entries@, key@) is None,
        },
{
    let mut i: usize = 0;
    while i < entries.len()
        invariant
            i <= entries@.len(),
            forall|j: int| 0 <= j < i ==> #[trigger] entries@[j].0@ != key@,
        decreases entries@.len() - i,
    {
        if same_text(entries[i].0.as_str(), key) {
            proof {
                lemma_entry_lookup_prefix(entries@, key@, i as int);
                assert(entries@.skip(i as int)[0] == entries@[i as int]);
            }
            return Some(&entries[i].1);
        }
        i += 1;
    }
    proof {
        lemma_entry_lookup_prefix(entries@, key@, i as int);
        assert(entries@.skip(i as int).len() == 0);
    }
    None
}

} // verus!
