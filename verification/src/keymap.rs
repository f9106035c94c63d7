//! A map keyed by strings, kept as a list of distinct keys.
//!
//! It stands for the `BTreeMap<String, _>` / `HashMap<String, _>` values of
//! the protocol: property maps, history items and the replayed state.

use vstd::prelude::*;
use crate::text::same_text;

verus! {

/// A finite map from strings to values.
pub struct KeyMap<V> {
    entries: Vec<(String, V)>,
}

/// Whether the keys of `s` are pairwise distinct.
pub open spec fn distinct_keys<V>(s: Seq<(String, V)>) -> bool {
    forall|i: int, j: int|
        0 <= i < s.len() && 0 <= j < s.len() && i != j ==> #[trigger] s[i].0@ != #[trigger] s[j].0@
}

/// Whether `k` is a key of `s`.
pub open spec fn has_key<V>(s: Seq<(String, V)>, k: Seq<char>) -> bool {
    exists|i: int| 0 <= i < s.len() && #[trigger] s[i].0@ == k
}

/// The position of key `k` in `s`.
pub open spec fn key_index<V>(s: Seq<(String, V)>, k: Seq<char>) -> int {
    choose|i: int| 0 <= i < s.len() && #[trigger] s[i].0@ == k
}

/// The map that a list of distinct keys stands for.
pub open spec fn map_of<V>(s: Seq<(String, V)>) -> Map<Seq<char>, V> {
    Map::new(|k: Seq<char>| has_key(s, k), |k: Seq<char>| s[key_index(s, k)].1)
}

/// The entry at position `i` is the one its key finds.
pub proof fn lemma_key_index<V>(s: Seq<(String, V)>, i: int)
    requires
        distinct_keys(s),
        0 <= i < s.len(),
    ensures
        has_key(s, s[i].0@),
        key_index(s, s[i].0@) == i,
        map_of(s).contains_key(s[i].0@),
        map_of(s)[s[i].0@] == s[i].1,
{
    assert(has_key(s, s[i].0@));
    let j = key_index(s, s[i].0@);
    assert(s[j].0@ == s[i].0@);
}

proof fn lemma_map_of_ext<V>(s: Seq<(String, V)>, m: Map<Seq<char>, V>)
    requires
        forall|kk: Seq<char>| #[trigger] has_key(s, kk) == m.contains_key(kk),
        forall|kk: Seq<char>| #[trigger] has_key(s, kk) ==> s[key_index(s, kk)].1 == m[kk],
    ensures
        map_of(s) == m,
{
    assert(map_of(s) =~= m);
}

impl<V> KeyMap<V> {
    /// The keys are distinct.
    pub open spec fn wf(&self) -> bool {
        distinct_keys(self.entries_view())
    }

    /// The entries, in insertion order.
    pub closed spec fn entries_view(&self) -> Seq<(String, V)> {
        self.entries@
    }

    /// The map this value stands for.
    pub open spec fn view(&self) -> Map<Seq<char>, V> {
        map_of(self.entries_view())
    }

    /// The empty map.
    pub fn new() -> (r: Self)
        ensures
            r.wf(),
            r@ == Map::<Seq<char>, V>::empty(),
            r.entries_view().len() == 0,
    {
        let r = KeyMap { entries: Vec::new() };
        assert(r@ =~= Map::<Seq<char>, V>::empty());
        r
    }

    /// Number of entries.
    pub fn len(&self) -> (r: usize)
        ensures
            r == self.entries_view().len(),
    {
        self.entries.len()
    }

    /// Every key of the entry list is in the map, with its entry's value.
    pub proof fn lemma_entries(&self)
        requires
            self.wf(),
        ensures
            forall|i: int|
                0 <= i < self.entries_view().len() ==> #[trigger] self@.contains_key(
                    self.entries_view()[i].0@,
                ) && self@[self.entries_view()[i].0@] == self.entries_view()[i].1,
            forall|k: Seq<char>|
                #[trigger] self@.contains_key(k) ==> exists|i: int|
                    0 <= i < self.entries_view().len() && #[trigger] self.entries_view()[i].0@
                        == k,
            self@.dom().finite(),
            self@.dom().len() == self.entries_view().len(),
    {
        assert forall|i: int| 0 <= i < self.entries_view().len() implies #[trigger] self@.contains_key(
            self.entries_view()[i].0@,
        ) && self@[self.entries_view()[i].0@] == self.entries_view()[i].1 by {
            lemma_key_index(self.entries@, i);
        }
        lemma_dom_len(self.entries@);
    }

    /// The entries, consuming the map.
    pub fn into_entries(self) -> (r: Vec<(String, V)>)
        ensures
            r@ == self.entries_view(),
    {
        self.entries
    }

    /// The `i`-th entry.
    pub fn entry(&self, i: usize) -> (r: (&String, &V))
        requires
            i < self.entries_view().len(),
        ensures
            *r.0 == self.entries_view()[i as int].0,
            *r.1 == self.entries_view()[i as int].1,
    {
        let e = &self.entries[i];
        (&e.0, &e.1)
    }

    /// Position of `key`, if present.
    pub fn find(&self, key: &str) -> (r: Option<usize>)
        requires
            self.wf(),
        ensures
            match r {
                Some(i) => i < self.entries_view().len() && self.entries_view()[i as int].0@
                    == key@,
                None => !self@.contains_key(key@),
            },
            r is Some <==> self@.contains_key(key@),
    {
        let mut i: usize = 0;
        while i < self.entries.len()
            invariant
                self.wf(),
                i <= self.entries@.len(),
                forall|j: int| 0 <= j < i ==> #[trigger] self.entries@[j].0@ != key@,
            decreases self.entries@.len() - i,
        {
            if same_text(self.entries[i].0.as_str(), key) {
                proof {
                    lemma_key_index(self.entries@, i as int);
                }
                return Some(i);
            }
            i += 1;
        }
        None
    }

    /// Whether `key` is present.
    pub fn contains_key(&self, key: &str) -> (r: bool)
        requires
            self.wf(),
        ensures
            r == self@.contains_key(key@),
    {
        self.find(key).is_some()
    }

    /// The value stored under `key`.
    pub fn get(&self, key: &str) -> (r: Option<&V>)
        requires
            self.wf(),
        ensures
            match r {
                Some(v) => self@.contains_key(key@) && *v == self@[key@],
                None => !self@.contains_key(key@),
            },
    {
        match self.find(key) {
            Some(i) => {
                proof {
                    lemma_key_index(self.entries@, i as int);
                }
                Some(&self.entries[i].1)
            },
            None => None,
        }
    }

    /// Stores `value` under `key`, replacing any earlier value.
    pub fn insert(&mut self, key: String, value: V)
        requires
            old(self).wf(),
        ensures
            final(self).wf(),
            final(self)@ == old(self)@.insert(key@, value),
    {
        let ghost k = key@;
        let ghost v = value;
        let ghost old_s = self.entries@;
        match self.find(key.as_str()) {
            Some(i) => {
                self.entries.set(i, (key, value));
                proof {
                    let s = self.entries@;
                    assert(s == old_s.update(i as int, (s[i as int].0, v)));
                    assert(distinct_keys(s)) by {
                        assert forall|a: int, b: int|
                            0 <= a < s.len() && 0 <= b < s.len() && a != b implies #[trigger] s[a].0@
                            != #[trigger] s[b].0@ by {
                            if a != i && b != i {
                                assert(s[a] == old_s[a] && s[b] == old_s[b]);
                            } else if a == i {
                                assert(s[b] == old_s[b]);
                                assert(old_s[b].0@ != old_s[i as int].0@);
                            } else {
                                assert(s[a] == old_s[a]);
                                assert(old_s[a].0@ != old_s[i as int].0@);
                            }
                        }
                    }
                    assert forall|kk: Seq<char>|
                        (#[trigger] has_key(s, kk)) == map_of(old_s).insert(k, v).contains_key(kk)
                            && (has_key(s, kk) ==> s[key_index(s, kk)].1 == map_of(
                            old_s,
                        ).insert(k, v)[kk]) by {
                        if has_key(s, kk) {
                            let a = key_index(s, kk);
                            lemma_key_index(s, a);
                            if a != i {
                                assert(s[a] == old_s[a]);
                                lemma_key_index(old_s, a);
                            }
                        }
                        if has_key(old_s, kk) {
                            let a = key_index(old_s, kk);
                            lemma_key_index(old_s, a);
                            if a != i {
                                assert(s[a] == old_s[a]);
                                lemma_key_index(s, a);
                            } else {
                                lemma_key_index(s, a);
                            }
                        }
                        if kk == k {
                            lemma_key_index(s, i as int);
                        }
                    }
                    lemma_map_of_ext(s, map_of(old_s).insert(k, v));
                }
            },
            None => {
                self.entries.push((key, value));
                proof {
                    let s = self.entries@;
                    let n = old_s.len() as int;
                    assert(s == old_s.push((s[n].0, v)));
                    assert(distinct_keys(s)) by {
                        assert forall|a: int, b: int|
                            0 <= a < s.len() && 0 <= b < s.len() && a != b implies #[trigger] s[a].0@
                            != #[trigger] s[b].0@ by {
                            if a != n && b != n {
                                assert(s[a] == old_s[a] && s[b] == old_s[b]);
                            } else if a == n {
                                assert(s[b] == old_s[b]);
                                assert(has_key(old_s, old_s[b].0@));
                            } else {
                                assert(s[a] == old_s[a]);
                                assert(has_key(old_s, old_s[a].0@));
                            }
                        }
                    }
                    assert forall|kk: Seq<char>|
                        (#[trigger] has_key(s, kk)) == map_of(old_s).insert(k, v).contains_key(kk)
                            && (has_key(s, kk) ==> s[key_index(s, kk)].1 == map_of(
                            old_s,
                        ).insert(k, v)[kk]) by {
                        if has_key(s, kk) {
                            let a = key_index(s, kk);
                            lemma_key_index(s, a);
                            if a != n {
                                assert(s[a] == old_s[a]);
                                lemma_key_index(old_s, a);
                            }
                        }
                        if has_key(old_s, kk) {
                            let a = key_index(old_s, kk);
                            lemma_key_index(old_s, a);
                            assert(s[a] == old_s[a]);
                            lemma_key_index(s, a);
                        }
                        if kk == k {
                            lemma_key_index(s, n);
                        }
                    }
                    lemma_map_of_ext(s, map_of(old_s).insert(k, v));
                }
            },
        }
    }

    /// Removes `key`, returning its value if it was present.
    pub fn remove(&mut self, key: &str) -> (r: Option<V>)
        requires
            old(self).wf(),
        ensures
            final(self).wf(),
            final(self)@ == old(self)@.remove(key@),
            match r {
                Some(v) => old(self)@.contains_key(key@) && v == old(self)@[key@],
                None => !old(self)@.contains_key(key@),
            },
    {
        let ghost old_s = self.entries@;
        match self.find(key) {
            Some(i) => {
                proof {
                    lemma_key_index(old_s, i as int);
                }
                let e = self.entries.remove(i);
                proof {
                    let s = self.entries@;
                    assert(s == old_s.remove(i as int));
                    assert(distinct_keys(s)) by {
                        assert forall|a: int, b: int|
                            0 <= a < s.len() && 0 <= b < s.len() && a != b implies #[trigger] s[a].0@
                            != #[trigger] s[b].0@ by {
                            let a2 = if a < i { a } else { a + 1 };
                            let b2 = if b < i { b } else { b + 1 };
                            assert(s[a] == old_s[a2] && s[b] == old_s[b2]);
                        }
                    }
                    assert forall|kk: Seq<char>|
                        (#[trigger] has_key(s, kk)) == map_of(old_s).remove(key@).contains_key(kk)
                            && (has_key(s, kk) ==> s[key_index(s, kk)].1 == map_of(
                            old_s,
                        ).remove(key@)[kk]) by {
                        if has_key(s, kk) {
                            let a = key_index(s, kk);
                            lemma_key_index(s, a);
                            let a2 = if a < i { a } else { a + 1 };
                            assert(s[a] == old_s[a2]);
                            lemma_key_index(old_s, a2);
                        }
                        if has_key(old_s, kk) && kk != key@ {
                            let a = key_index(old_s, kk);
                            lemma_key_index(old_s, a);
                            let a2 = if a < i { a } else { a - 1 };
                            assert(s[a2] == old_s[a]);
                            lemma_key_index(s, a2);
                        }
                    }
                    lemma_map_of_ext(s, map_of(old_s).remove(key@));
                }
                Some(e.1)
            },
            None => {
                proof {
                    assert(map_of(old_s) =~= map_of(old_s).remove(key@));
                }
                None
            },
        }
    }
}

/// The entries from `j` on stand for the entries from `j + 1` on plus entry `j`.
pub proof fn lemma_map_of_suffix<V>(s: Seq<(String, V)>, j: int)
    requires
        distinct_keys(s),
        0 <= j < s.len(),
    ensures
        map_of(s.subrange(j, s.len() as int)) == map_of(s.subrange(j + 1, s.len() as int)).insert(
            s[j].0@,
            s[j].1,
        ),
        !map_of(s.subrange(j + 1, s.len() as int)).contains_key(s[j].0@),
{
    let a = s.subrange(j, s.len() as int);
    let b = s.subrange(j + 1, s.len() as int);
    assert(distinct_keys(a)) by {
        assert forall|x: int, y: int|
            0 <= x < a.len() && 0 <= y < a.len() && x != y implies #[trigger] a[x].0@
            != #[trigger] a[y].0@ by {
            assert(a[x] == s[x + j] && a[y] == s[y + j]);
        }
    }
    assert(distinct_keys(b)) by {
        assert forall|x: int, y: int|
            0 <= x < b.len() && 0 <= y < b.len() && x != y implies #[trigger] b[x].0@
            != #[trigger] b[y].0@ by {
            assert(b[x] == s[x + j + 1] && b[y] == s[y + j + 1]);
        }
    }
    assert(!has_key(b, s[j].0@)) by {
        if has_key(b, s[j].0@) {
            let x = key_index(b, s[j].0@);
            assert(b[x] == s[x + j + 1]);
        }
    }
    let m = map_of(b).insert(s[j].0@, s[j].1);
    assert forall|kk: Seq<char>| #[trigger] has_key(a, kk) == m.contains_key(kk) by {
        if has_key(a, kk) {
            let x = key_index(a, kk);
            if x > 0 {
                assert(a[x] == b[x - 1]);
                assert(has_key(b, kk));
            }
        }
        if has_key(b, kk) {
            let x = key_index(b, kk);
            assert(b[x] == a[x + 1]);
            assert(has_key(a, kk));
        }
        if kk == s[j].0@ {
            assert(a[0] == s[j]);
            assert(has_key(a, kk));
        }
    }
    assert forall|kk: Seq<char>| #[trigger] has_key(a, kk) implies a[key_index(a, kk)].1 == m[kk] by {
        let x = key_index(a, kk);
        lemma_key_index(a, x);
        if x == 0 {
            assert(a[0] == s[j]);
        } else {
            assert(a[x] == b[x - 1]);
            lemma_key_index(b, x - 1);
        }
    }
    lemma_map_of_ext(a, m);
}

/// All entries stand for the whole map.
pub proof fn lemma_map_of_full<V>(s: Seq<(String, V)>)
    ensures
        map_of(s.subrange(0, s.len() as int)) == map_of(s),
        map_of(s.subrange(s.len() as int, s.len() as int)) == Map::<Seq<char>, V>::empty(),
{
    assert(s.subrange(0, s.len() as int) =~= s);
    assert(map_of(s.subrange(s.len() as int, s.len() as int)) =~= Map::<Seq<char>, V>::empty());
}

proof fn lemma_dom_len<V>(s: Seq<(String, V)>)
    requires
        distinct_keys(s),
    ensures
        map_of(s).dom().finite(),
        map_of(s).dom().len() == s.len(),
    decreases s.len(),
{
    if s.len() == 0 {
        assert(map_of(s).dom() =~= Set::<Seq<char>>::empty());
    } else {
        let t = s.drop_last();
        assert(distinct_keys(t)) by {
            assert forall|a: int, b: int|
                0 <= a < t.len() && 0 <= b < t.len() && a != b implies #[trigger] t[a].0@
                != #[trigger] t[b].0@ by {
                assert(t[a] == s[a] && t[b] == s[b]);
            }
        }
        lemma_dom_len(t);
        let last = s.last().0@;
        assert(!has_key(t, last)) by {
            if has_key(t, last) {
                let j = key_index(t, last);
                assert(t[j] == s[j]);
                assert(s[j].0@ == s[s.len() - 1].0@);
            }
        }
        assert(map_of(s).dom() =~= map_of(t).dom().insert(last)) by {
            assert forall|kk: Seq<char>|
                map_of(s).dom().contains(kk) == map_of(t).dom().insert(last).contains(kk) by {
                if has_key(s, kk) {
                    let a = key_index(s, kk);
                    if a < s.len() - 1 {
                        assert(t[a] == s[a]);
                    }
                }
                if has_key(t, kk) {
                    let a = key_index(t, kk);
                    assert(t[a] == s[a]);
                }
                if kk == last {
                    assert(s[s.len() - 1].0@ == last);
                }
            }
        }
    }
}

} // verus!
