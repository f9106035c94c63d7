//! Shortest unique id prefixes: each id is shown by the fewest leading
//! characters that no other id shares.

use vstd::prelude::*;
use crate::keymap::KeyMap;
use crate::sorting::{
    lcp, lemma_lcp, lemma_lcp_from_scan, lemma_text_lt_at, lemma_text_order, text_le, text_lt,
    sorted_texts, sort_texts, permutes, is_perm_map, hits,
};
use crate::text::{take_chars, chars_of, prefix_chars};

verus! {

/// `need` is one more than the longest prefix `x` shares with another id of `d`.
pub open spec fn prefix_need(d: Set<Seq<char>>, x: Seq<char>, need: int) -> bool {
    &&& need >= 1
    &&& forall|y: Seq<char>| #[trigger] d.contains(y) && y != x ==> lcp(x, y) < need
    &&& need == 1 || exists|y: Seq<char>| #[trigger] d.contains(y) && y != x && lcp(x, y) == need - 1
}

/// The short ids of the ids `d`: each id maps to its first `need` characters.
pub open spec fn short_ids_of(short: Map<Seq<char>, String>, d: Set<Seq<char>>) -> bool {
    &&& forall|x: Seq<char>| #[trigger] short.contains_key(x) <==> d.contains(x)
    &&& forall|x: Seq<char>|
        #[trigger] d.contains(x) ==> exists|need: int| prefix_need(d, x, need) && short[x]@ == take_chars(x, need)
}

/// The ids of a list of strings, as a set.
pub open spec fn id_set(ids: Seq<String>) -> Set<Seq<char>> {
    Set::new(|x: Seq<char>| exists|a: int| 0 <= a < ids.len() && #[trigger] ids[a]@ == x)
}

/// The common prefix is symmetric.
pub proof fn lemma_lcp_symmetric(a: Seq<char>, b: Seq<char>)
    ensures
        lcp(a, b) == lcp(b, a),
    decreases a.len(),
{
    if a.len() > 0 && b.len() > 0 && a[0] == b[0] {
        lemma_lcp_symmetric(a.drop_first(), b.drop_first());
    }
}

/// For `a <= b <= c`, what `a` and `c` share, `b` shares with each of them.
pub proof fn lemma_lcp_between(a: Seq<char>, b: Seq<char>, c: Seq<char>)
    requires
        text_le(a, b),
        text_le(b, c),
    ensures
        lcp(a, c) <= lcp(a, b),
        lcp(a, c) <= lcp(b, c),
{
    lemma_lcp(a, c);
    lemma_lcp(a, b);
    lemma_lcp(b, c);
    let l = lcp(a, c) as int;
    if a == b || b == c {
        lemma_lcp_symmetric(a, c);
        return;
    }
    assert(text_lt(a, b) && text_lt(b, c));
    lemma_text_lt_at(a, b);
    lemma_text_lt_at(b, c);
    lemma_text_lt_at(a, c);
    // the first place where b differs from a
    let m = lcp(a, b) as int;
    if m < l {
        // b agrees with a (hence c) before m and differs from a at m
        assert(m < a.len());
        assert(m < b.len());
        assert(a[m] < b[m]);
        assert forall|k: int| 0 <= k < m implies #[trigger] b[k] == c[k] by {
            assert(a[k] == b[k]);
            assert(a[k] == c[k]);
        }
        assert(a[m] == c[m]);
        lemma_lcp_from_scan(b, c, m);
        assert(false);
    }
    let q = lcp(b, c) as int;
    if q < l {
        assert(q < b.len());
        assert(q < c.len());
        assert(b[q] < c[q]);
        assert forall|k: int| 0 <= k < q implies #[trigger] a[k] == b[k] by {
            assert(b[k] == c[k]);
            assert(a[k] == c[k]);
        }
        assert(a[q] == c[q]);
        lemma_lcp_from_scan(a, b, q);
        assert(false);
    }
}

/// In a sorted list, what an id shares with a later one it shares with its successor.
pub proof fn lemma_lcp_sorted_right(o: Seq<Seq<char>>, i: int, j: int)
    requires
        forall|a: int, b: int| 0 <= a < b < o.len() ==> text_le(#[trigger] o[a], #[trigger] o[b]),
        0 <= i < j < o.len(),
    ensures
        lcp(o[i], o[j]) <= lcp(o[i], o[i + 1]),
    decreases j - i,
{
    if j > i + 1 {
        lemma_lcp_sorted_right(o, i, j - 1);
        lemma_lcp_between(o[i], o[j - 1], o[j]);
    }
}

/// In a sorted list, what an id shares with an earlier one it shares with its predecessor.
pub proof fn lemma_lcp_sorted_left(o: Seq<Seq<char>>, i: int, j: int)
    requires
        forall|a: int, b: int| 0 <= a < b < o.len() ==> text_le(#[trigger] o[a], #[trigger] o[b]),
        0 <= i < j < o.len(),
    ensures
        lcp(o[i], o[j]) <= lcp(o[j - 1], o[j]),
    decreases j - i,
{
    if j > i + 1 {
        lemma_lcp_sorted_left(o, i + 1, j);
        lemma_lcp_between(o[i], o[i + 1], o[j]);
    }
}

/// Length of the longest common prefix of two strings, in characters.
fn lcp_len(a: &str, b: &str) -> (r: usize)
    ensures
        r == lcp(a@, b@),
        a@.len() <= usize::MAX,
{
    let x = chars_of(a);
    let y = chars_of(b);
    let mut i: usize = 0;
    while i < x.len() && i < y.len() && x[i] == y[i]
        invariant
            i <= x@.len(),
            i <= y@.len(),
            x@ == a@,
            y@ == b@,
            forall|k: int| 0 <= k < i ==> #[trigger] a@[k] == b@[k],
        decreases x@.len() - i,
    {
        i += 1;
    }
    proof {
        lemma_lcp_from_scan(a@, b@, i as int);
    }
    i
}

fn copy_strings(v: &Vec<String>) -> (r: Vec<String>)
    ensures
        r@.len() == v@.len(),
        forall|i: int| 0 <= i < v@.len() ==> #[trigger] r@[i]@ == v@[i]@,
{
    let mut r: Vec<String> = Vec::new();
    let mut i: usize = 0;
    while i < v.len()
        invariant
            i <= v@.len(),
            r@.len() == i,
            forall|k: int| 0 <= k < i ==> #[trigger] r@[k]@ == v@[k]@,
        decreases v@.len() - i,
    {
        r.push(v[i].clone());
        i += 1;
    }
    r
}

/// The shortest unique prefix of each id (`shortest_unique_prefixes`).
pub fn shortest_unique_prefixes(ids: &Vec<String>) -> (r: KeyMap<String>)
    requires
        forall|a: int, b: int|
            0 <= a < ids@.len() && 0 <= b < ids@.len() && a != b ==> #[trigger] ids@[a]@ != #[trigger] ids@[b]@,
    ensures
        r.wf(),
        short_ids_of(r@, id_set(ids@)),
{
    let ghost d = id_set(ids@);
    let copy = copy_strings(ids);
    let ordered = sort_texts(copy);
    let ghost o = ordered@.map_values(|s: String| s@);
    let ghost perm = choose|perm: Seq<int>| is_perm_map(perm, ordered@, copy@);
    proof {
        assert forall|a: int, b: int| 0 <= a < b < o.len() implies text_le(#[trigger] o[a], #[trigger] o[b]) by {
            assert(text_le(ordered@[a]@, ordered@[b]@));
        }
        // the sorted ids are the ids, each once
        assert forall|a: int| 0 <= a < o.len() implies #[trigger] d.contains(o[a]) by {
            assert(ids@[perm[a]]@ == o[a]);
        }
        assert forall|x: Seq<char>| #[trigger] d.contains(x) implies exists|a: int| 0 <= a < o.len() && o[a] == x by {
            let b = choose|b: int| 0 <= b < ids@.len() && #[trigger] ids@[b]@ == x;
            assert(hits(perm, b));
            let a = choose|a: int| 0 <= a < perm.len() && #[trigger] perm[a] == b;
            assert(o[a] == x);
        }
        assert forall|a: int, b: int| 0 <= a < o.len() && 0 <= b < o.len() && a != b implies #[trigger] o[a] != #[trigger] o[b] by {
            assert(perm[a] != perm[b]);
            assert(o[a] == ids@[perm[a]]@);
            assert(o[b] == ids@[perm[b]]@);
        }
    }
    let mut result: KeyMap<String> = KeyMap::new();
    let n = ordered.len();
    let mut i: usize = 0;
    while i < n
        invariant
            n == ordered@.len(),
            n == o.len(),
            i <= n,
            o == ordered@.map_values(|s: String| s@),
            forall|a: int, b: int| 0 <= a < b < o.len() ==> text_le(#[trigger] o[a], #[trigger] o[b]),
            forall|a: int, b: int| 0 <= a < o.len() && 0 <= b < o.len() && a != b ==> #[trigger] o[a] != #[trigger] o[b],
            forall|a: int| 0 <= a < o.len() ==> #[trigger] d.contains(o[a]),
            forall|x: Seq<char>| #[trigger] d.contains(x) ==> exists|a: int| 0 <= a < o.len() && o[a] == x,
            result.wf(),
            forall|x: Seq<char>| #[trigger] result@.contains_key(x) <==> exists|a: int| 0 <= a < i && o[a] == x,
            forall|x: Seq<char>|
                #[trigger] result@.contains_key(x) ==> exists|need: int| prefix_need(d, x, need) && result@[x]@ == take_chars(x, need),
        decreases n - i,
    {
        let left: usize = if i > 0 { lcp_len(ordered[i].as_str(), ordered[i - 1].as_str()) } else { 0 };
        let right: usize = if i + 1 < n { lcp_len(ordered[i].as_str(), ordered[i + 1].as_str()) } else { 0 };
        let m = if left > right { left } else { right };
        proof {
            lemma_lcp(o[i as int], o[i as int]);
            if i > 0 {
                lemma_lcp(o[i as int], o[i - 1]);
            }
        }
        // `m` is at most the length of the id, so the last case cannot arise
        let take = if m < usize::MAX { m + 1 } else { m };
        let short = prefix_chars(ordered[i].as_str(), take);
        let ghost x = o[i as int];
        let ghost need: int = m + 1;
        proof {
            lemma_lcp(x, x);
            assert(take_chars(x, take as int) == take_chars(x, need));
            assert(ordered@[i as int]@ == x);
            // every other id shares less than `need` characters with x
            assert forall|y: Seq<char>| #[trigger] d.contains(y) && y != x implies lcp(x, y) < need by {
                let j = choose|a: int| 0 <= a < o.len() && o[a] == y;
                if j > i {
                    lemma_lcp_sorted_right(o, i as int, j);
                } else {
                    assert(j < i);
                    lemma_lcp_sorted_left(o, j, i as int);
                    lemma_lcp_symmetric(o[j], o[i as int]);
                    lemma_lcp_symmetric(o[i - 1], o[i as int]);
                }
            }
            if need > 1 {
                if left > right {
                    assert(d.contains(o[i - 1]) && o[i - 1] != x && lcp(x, o[i - 1]) == need - 1);
                } else {
                    assert(d.contains(o[i + 1]) && o[i + 1] != x && lcp(x, o[i + 1]) == need - 1);
                }
            }
            assert(prefix_need(d, x, need));
        }
        let key = ordered[i].clone();
        let ghost old_result = result@;
        result.insert(key, short);
        proof {
            assert forall|y: Seq<char>| #[trigger] result@.contains_key(y) <==> exists|a: int| 0 <= a < i + 1 && o[a] == y by {
                if result@.contains_key(y) && y != x {
                    assert(old_result.contains_key(y));
                }
                if exists|a: int| 0 <= a < i + 1 && o[a] == y {
                    let a = choose|a: int| 0 <= a < i + 1 && o[a] == y;
                    if a < i {
                        assert(old_result.contains_key(y));
                    }
                }
            }
            assert forall|y: Seq<char>| #[trigger] result@.contains_key(y) implies exists|need: int|
                prefix_need(d, y, need) && result@[y]@ == take_chars(y, need) by {
                if y == x {
                    assert(prefix_need(d, y, need) && result@[y]@ == take_chars(y, need));
                } else {
                    assert(old_result.contains_key(y));
                }
            }
        }
        i += 1;
    }
    proof {
        assert forall|x: Seq<char>| #[trigger] result@.contains_key(x) <==> d.contains(x) by {
            if d.contains(x) {
                let a = choose|a: int| 0 <= a < o.len() && o[a] == x;
            }
        }
        assert forall|x: Seq<char>| #[trigger] d.contains(x) implies exists|need: int|
            prefix_need(d, x, need) && result@[x]@ == take_chars(x, need) by {
            assert(result@.contains_key(x));
        }
    }
    result
}

/// A short id tells its id apart: it is a prefix of the id, and of no other
/// id, unless the id itself is a prefix of that other id.
pub proof fn lemma_short_id_unique(short: Map<Seq<char>, String>, d: Set<Seq<char>>, x: Seq<char>, y: Seq<char>)
    requires
        short_ids_of(short, d),
        d.contains(x),
        d.contains(y),
        x != y,
        !x.is_prefix_of(y),
    ensures
        short[x]@.is_prefix_of(x),
        !short[x]@.is_prefix_of(y),
{
    let need = choose|need: int| prefix_need(d, x, need) && short[x]@ == take_chars(x, need);
    lemma_lcp(x, y);
    let s = short[x]@;
    assert(s.is_prefix_of(x)) by {
        if need < x.len() {
            assert(s =~= x.take(need));
        }
    }
    if s.is_prefix_of(y) {
        assert(lcp(x, y) < need);
        if need < x.len() {
            assert(s.len() == need);
            assert forall|k: int| 0 <= k < need implies #[trigger] x[k] == y[k] by {
                assert(s[k] == x[k]);
                assert(s[k] == y[k]);
            }
            // x and y agree on the first `need` characters
            if lcp(x, y) < y.len() {
                assert(x[lcp(x, y) as int] != y[lcp(x, y) as int]);
            }
        } else {
            assert(s == x);
            assert(x.is_prefix_of(y));
        }
    }
}

} // verus!
