//! Stable insertion sorts: by an integer key triple, and strings in
//! lexicographic order.

use vstd::prelude::*;

verus! {

/// A sort key: three integers compared lexicographically.
pub type SortKey = (i128, i128, i128);

/// Lexicographic order on sort keys.
pub open spec fn key_le(a: SortKey, b: SortKey) -> bool {
    a.0 < b.0 || (a.0 == b.0 && (a.1 < b.1 || (a.1 == b.1 && a.2 <= b.2)))
}

/// Whether the keys of `s` are in non-decreasing order.
pub open spec fn sorted_by_key<T>(s: Seq<(SortKey, T)>) -> bool {
    forall|i: int, j: int| 0 <= i < j < s.len() ==> key_le(#[trigger] s[i].0, #[trigger] s[j].0)
}

/// Whether `r` holds the elements of `v`, each once, in some order.
pub open spec fn permutes<T>(r: Seq<T>, v: Seq<T>) -> bool {
    &&& r.len() == v.len()
    &&& exists|perm: Seq<int>| is_perm_map(perm, r, v)
}

/// `r[i] == v[perm[i]]`, with `perm` a bijection onto the positions of `v`.
pub open spec fn is_perm_map<T>(perm: Seq<int>, r: Seq<T>, v: Seq<T>) -> bool {
    &&& perm.len() == r.len()
    &&& forall|i: int| 0 <= i < r.len() ==> 0 <= #[trigger] perm[i] < v.len() && r[i] == v[perm[i]]
    &&& forall|i: int, j: int| 0 <= i < r.len() && 0 <= j < r.len() && i != j ==> #[trigger] perm[i] != #[trigger] perm[j]
    &&& forall|j: int| 0 <= j < v.len() ==> #[trigger] hits(perm, j)
}

/// Some position of `perm` holds `j`.
pub open spec fn hits(perm: Seq<int>, j: int) -> bool {
    exists|i: int| 0 <= i < perm.len() && #[trigger] perm[i] == j
}

/// Inserting the next element keeps a permutation a permutation.
pub proof fn lemma_perm_insert<T>(perm: Seq<int>, r: Seq<T>, v: Seq<T>, p: int, x: T)
    requires
        is_perm_map(perm, r, v.take(r.len() as int)),
        r.len() < v.len(),
        v[r.len() as int] == x,
        0 <= p <= r.len(),
    ensures
        is_perm_map(perm.insert(p, r.len() as int), r.insert(p, x), v.take((r.len() + 1) as int)),
{
    let n = r.len() as int;
    let perm2 = perm.insert(p, n);
    let r2 = r.insert(p, x);
    let v2 = v.take(n + 1);
    assert forall|i: int| 0 <= i < r2.len() implies 0 <= #[trigger] perm2[i] < v2.len() && r2[i] == v2[perm2[i]] by {
        if i < p {
            assert(perm2[i] == perm[i] && r2[i] == r[i]);
        } else if i == p {
        } else {
            assert(perm2[i] == perm[i - 1] && r2[i] == r[i - 1]);
        }
    }
    assert forall|i: int, j: int| 0 <= i < r2.len() && 0 <= j < r2.len() && i != j implies #[trigger] perm2[i] != #[trigger] perm2[j] by {
        let a = if i < p { i } else { i - 1 };
        let b = if j < p { j } else { j - 1 };
        if i != p && j != p {
            assert(perm2[i] == perm[a] && perm2[j] == perm[b]);
        } else if i == p {
            assert(perm2[j] == perm[b]);
        } else {
            assert(perm2[i] == perm[a]);
        }
    }
    assert forall|j: int| 0 <= j < v2.len() implies #[trigger] hits(perm2, j) by {
        if j == n {
            assert(perm2[p] == n);
        } else {
            assert(hits(perm, j));
            let i = choose|i: int| 0 <= i < perm.len() && #[trigger] perm[i] == j;
            if i < p {
                assert(perm2[i] == j);
            } else {
                assert(perm2[i + 1] == j);
            }
        }
    }
}

fn key_leq(a: SortKey, b: SortKey) -> (r: bool)
    ensures
        r == key_le(a, b),
{
    a.0 < b.0 || (a.0 == b.0 && (a.1 < b.1 || (a.1 == b.1 && a.2 <= b.2)))
}

/// Sorts pairs by their key, keeping equal keys in their original order.
pub fn sort_by_key<T>(v: Vec<(SortKey, T)>) -> (r: Vec<(SortKey, T)>)
    ensures
        sorted_by_key(r@),
        permutes(r@, v@),
{
    let ghost orig = v@;
    let ghost mut perm: Seq<int> = Seq::empty();
    let mut rest = v;
    let mut out: Vec<(SortKey, T)> = Vec::new();
    proof {
        assert(rest@ =~= orig.subrange(0, orig.len() as int));
    }
    while rest.len() > 0
        invariant
            rest@.len() <= orig.len(),
            rest@ == orig.subrange(orig.len() - rest@.len(), orig.len() as int),
            sorted_by_key(out@),
            is_perm_map(perm, out@, orig.take(out@.len() as int)),
            out@.len() == orig.len() - rest@.len(),
        decreases rest@.len(),
    {
        let ghost done = orig.len() - rest@.len();
        let x = rest.remove(0);
        let mut p: usize = out.len();
        while p > 0 && !key_leq(out[p - 1].0, x.0)
            invariant
                p <= out@.len(),
                forall|j: int| p <= j < out@.len() ==> !key_le(#[trigger] out@[j].0, x.0),
            decreases p,
        {
            p -= 1;
        }
        let ghost before = out@;
        out.insert(p, x);
        proof {
            assert(x == orig[done]);
            assert(out@ == before.insert(p as int, x));
            lemma_perm_insert(perm, before, orig, p as int, x);
            perm = perm.insert(p as int, before.len() as int);
            assert(sorted_by_key(out@)) by {
                assert forall|i: int, j: int| 0 <= i < j < out@.len() implies key_le(
                    #[trigger] out@[i].0,
                    #[trigger] out@[j].0,
                ) by {
                    if i < p && j < p {
                        assert(out@[i] == before[i] && out@[j] == before[j]);
                    } else if i < p && j == p {
                        assert(out@[i] == before[i]);
                        assert(key_le(before[p - 1].0, x.0));
                        if i < p - 1 {
                            assert(key_le(before[i].0, before[p - 1].0));
                        }
                    } else if i < p && j > p {
                        assert(out@[i] == before[i] && out@[j] == before[j - 1]);
                    } else if i == p {
                        assert(out@[j] == before[j - 1]);
                        assert(!key_le(before[j - 1].0, x.0));
                    } else {
                        assert(out@[i] == before[i - 1] && out@[j] == before[j - 1]);
                    }
                }
            }
            assert(rest@ =~= orig.subrange(orig.len() - rest@.len(), orig.len() as int));
        }
    }
    proof {
        assert(orig.take(orig.len() as int) =~= orig);
    }
    out
}

/// Strict lexicographic order on character sequences (the order of `String`).
pub open spec fn text_lt(a: Seq<char>, b: Seq<char>) -> bool
    decreases a.len(),
{
    if a.len() == 0 {
        b.len() > 0
    } else if b.len() == 0 {
        false
    } else if a[0] != b[0] {
        a[0] < b[0]
    } else {
        text_lt(a.drop_first(), b.drop_first())
    }
}

/// Lexicographic order including equality.
pub open spec fn text_le(a: Seq<char>, b: Seq<char>) -> bool {
    a == b || text_lt(a, b)
}

/// Whether a list of strings is in lexicographic order.
pub open spec fn sorted_texts(s: Seq<String>) -> bool {
    forall|i: int, j: int| 0 <= i < j < s.len() ==> text_le(#[trigger] s[i]@, #[trigger] s[j]@)
}

/// Length of the longest common prefix.
pub open spec fn lcp(a: Seq<char>, b: Seq<char>) -> nat
    decreases a.len(),
{
    if a.len() == 0 || b.len() == 0 || a[0] != b[0] {
        0
    } else {
        1 + lcp(a.drop_first(), b.drop_first())
    }
}

/// The common prefix really is common and maximal.
pub proof fn lemma_lcp(a: Seq<char>, b: Seq<char>)
    ensures
        lcp(a, b) <= a.len(),
        lcp(a, b) <= b.len(),
        forall|i: int| 0 <= i < lcp(a, b) ==> #[trigger] a[i] == b[i],
        lcp(a, b) < a.len() && lcp(a, b) < b.len() ==> a[lcp(a, b) as int] != b[lcp(a, b) as int],
    decreases a.len(),
{
    if a.len() == 0 || b.len() == 0 || a[0] != b[0] {
    } else {
        lemma_lcp(a.drop_first(), b.drop_first());
        assert forall|i: int| 0 <= i < lcp(a, b) implies #[trigger] a[i] == b[i] by {
            if i > 0 {
                assert(a[i] == a.drop_first()[i - 1]);
                assert(b[i] == b.drop_first()[i - 1]);
            }
        }
    }
}

/// `text_lt` compares at the first difference.
pub proof fn lemma_text_lt_at(a: Seq<char>, b: Seq<char>)
    ensures
        text_lt(a, b) == ({
            let m = lcp(a, b) as int;
            if m == a.len() {
                m < b.len()
            } else if m == b.len() {
                false
            } else {
                a[m] < b[m]
            }
        }),
    decreases a.len(),
{
    lemma_lcp(a, b);
    if a.len() == 0 || b.len() == 0 || a[0] != b[0] {
    } else {
        lemma_text_lt_at(a.drop_first(), b.drop_first());
        lemma_lcp(a.drop_first(), b.drop_first());
    }
}

/// Compares two strings lexicographically.
pub fn text_less(a: &str, b: &str) -> (r: bool)
    ensures
        r == text_lt(a@, b@),
{
    let x = crate::text::chars_of(a);
    let y = crate::text::chars_of(b);
    let mut i: usize = 0;
    while i < x.len() && i < y.len() && x[i] == y[i]
        invariant
            i <= x@.len(),
            i <= y@.len(),
            x@ == a@,
            y@ == b@,
            forall|k: int| 0 <= k < i ==> #[trigger] a@[k] == b@[k],
        decreases x@.len() - i,
    {
        i += 1;
    }
    proof {
        lemma_lcp_from_scan(a@, b@, i as int);
        lemma_text_lt_at(a@, b@);
    }
    if i == x.len() {
        i < y.len()
    } else if i == y.len() {
        false
    } else {
        x[i] < y[i]
    }
}

/// A scan that stops at the first difference measures the common prefix.
pub proof fn lemma_lcp_from_scan(a: Seq<char>, b: Seq<char>, i: int)
    requires
        0 <= i <= a.len(),
        i <= b.len(),
        forall|k: int| 0 <= k < i ==> #[trigger] a[k] == b[k],
        i == a.len() || i == b.len() || a[i] != b[i],
    ensures
        lcp(a, b) == i,
    decreases i,
{
    if i > 0 {
        assert forall|k: int| 0 <= k < i - 1 implies #[trigger] a.drop_first()[k]
            == b.drop_first()[k] by {
            assert(a[k + 1] == b[k + 1]);
        }
        assert(a[0] == b[0]);
        lemma_lcp_from_scan(a.drop_first(), b.drop_first(), i - 1);
    } else {
    }
}

/// `text_lt` is irreflexive.
pub proof fn lemma_text_irreflexive(a: Seq<char>)
    ensures
        !text_lt(a, a),
    decreases a.len(),
{
    if a.len() > 0 {
        lemma_text_irreflexive(a.drop_first());
    }
}

/// `text_lt` is total on distinct sequences and asymmetric.
pub proof fn lemma_text_total(a: Seq<char>, b: Seq<char>)
    ensures
        a != b ==> (text_lt(a, b) || text_lt(b, a)),
        !(text_lt(a, b) && text_lt(b, a)),
    decreases a.len(),
{
    if a.len() > 0 && b.len() > 0 {
        lemma_text_total(a.drop_first(), b.drop_first());
        if a[0] == b[0] && a != b {
            assert(a =~= seq![a[0]] + a.drop_first());
            assert(b =~= seq![b[0]] + b.drop_first());
        }
    }
    if a.len() == 0 && b.len() == 0 {
        assert(a =~= b);
    }
}

/// `text_lt` is transitive.
pub proof fn lemma_text_trans(a: Seq<char>, b: Seq<char>, c: Seq<char>)
    ensures
        text_lt(a, b) && text_lt(b, c) ==> text_lt(a, c),
    decreases a.len(),
{
    if a.len() > 0 && b.len() > 0 && c.len() > 0 {
        lemma_text_trans(a.drop_first(), b.drop_first(), c.drop_first());
    }
}

/// `text_lt` is a strict total order.
pub proof fn lemma_text_order(a: Seq<char>, b: Seq<char>, c: Seq<char>)
    ensures
        !text_lt(a, a),
        a != b ==> (text_lt(a, b) || text_lt(b, a)),
        !(text_lt(a, b) && text_lt(b, a)),
        text_lt(a, b) && text_lt(b, c) ==> text_lt(a, c),
{
    lemma_text_irreflexive(a);
    lemma_text_total(a, b);
    lemma_text_trans(a, b, c);
}

/// Sorts strings into lexicographic order.
pub fn sort_texts(v: Vec<String>) -> (r: Vec<String>)
    ensures
        sorted_texts(r@),
        permutes(r@, v@),
{
    let ghost orig = v@;
    let ghost mut perm: Seq<int> = Seq::empty();
    let mut rest = v;
    let mut out: Vec<String> = Vec::new();
    proof {
        assert(rest@ =~= orig.subrange(0, orig.len() as int));
    }
    while rest.len() > 0
        invariant
            rest@.len() <= orig.len(),
            rest@ == orig.subrange(orig.len() - rest@.len(), orig.len() as int),
            sorted_texts(out@),
            is_perm_map(perm, out@, orig.take(out@.len() as int)),
            out@.len() == orig.len() - rest@.len(),
        decreases rest@.len(),
    {
        let ghost done = orig.len() - rest@.len();
        let x = rest.remove(0);
        let mut p: usize = out.len();
        while p > 0 && text_less(x.as_str(), out[p - 1].as_str())
            invariant
                p <= out@.len(),
                forall|j: int| p <= j < out@.len() ==> text_lt(x@, #[trigger] out@[j]@),
            decreases p,
        {
            p -= 1;
        }
        let ghost before = out@;
        out.insert(p, x);
        proof {
            assert(x == orig[done]);
            lemma_perm_insert(perm, before, orig, p as int, x);
            perm = perm.insert(p as int, before.len() as int);
            if p > 0 {
                lemma_text_order(before[p - 1]@, x@, x@);
            }
            assert(sorted_texts(out@)) by {
                assert forall|i: int, j: int| 0 <= i < j < out@.len() implies text_le(
                    #[trigger] out@[i]@,
                    #[trigger] out@[j]@,
                ) by {
                    if i < p && j < p {
                        assert(out@[i] == before[i] && out@[j] == before[j]);
                    } else if i < p && j == p {
                        assert(out@[i] == before[i]);
                        assert(text_le(before[p - 1]@, x@));
                        if i < p - 1 {
                            assert(text_le(before[i]@, before[p - 1]@));
                            lemma_text_order(before[i]@, before[p - 1]@, x@);
                        }
                    } else if i < p && j > p {
                        assert(out@[i] == before[i] && out@[j] == before[j - 1]);
                    } else if i == p {
                        assert(out@[j] == before[j - 1]);
                        assert(text_lt(x@, before[j - 1]@));
                    } else {
                        assert(out@[i] == before[i - 1] && out@[j] == before[j - 1]);
                    }
                }
            }
            assert(rest@ =~= orig.subrange(orig.len() - rest@.len(), orig.len() as int));
        }
    }
    proof {
        assert(orig.take(orig.len() as int) =~= orig);
    }
    out
}

} // verus!
