//! Character-level string helpers: building strings, trimming, prefixes,
//! ASCII case folding and comma-separated token lists.

use vstd::prelude::*;
use vstd::string::*;

verus! {

/// Appends one character to a string (`String::push`).
#[verifier::external_body]
pub(crate) fn push_char(s: &mut String, c: char)
    ensures
        final(s)@ == old(s)@.push(c),
{
    s.push(c);
}

/// Lower-cased form of a string, as `str::to_lowercase` computes it.
pub uninterp spec fn lowercase(s: Seq<char>) -> Seq<char>;

/// `str::to_lowercase`: full Unicode lower-casing; its result depends on the text alone.
#[verifier::external_body]
pub(crate) fn to_lowercase(s: &str) -> (r: String)
    ensures
        r@ == lowercase(s@),
{
    s.to_lowercase()
}

/// The characters of a string, in order.
pub fn chars_of(s: &str) -> (r: Vec<char>)
    ensures
        r@ == s@,
{
    let mut out: Vec<char> = Vec::new();
    for c in it: s.chars()
        invariant
            it.seq() == s@,
            out@ == it.seq().take(it.index() as int),
    {
        out.push(c);
    }
    out
}

/// A string made of the given characters.
pub fn string_of(cs: &Vec<char>) -> (r: String)
    ensures
        r@ == cs@,
{
    let mut out = String::new();
    let mut i: usize = 0;
    while i < cs.len()
        invariant
            i <= cs.len(),
            out@ == cs@.take(i as int),
        decreases cs.len() - i,
    {
        push_char(&mut out, cs[i]);
        assert(cs@.take(i as int).push(cs@[i as int]) =~= cs@.take(i + 1));
        i += 1;
    }
    assert(cs@.take(cs.len() as int) =~= cs@);
    out
}

/// A copy of a string slice as an owned string.
pub fn owned(s: &str) -> (r: String)
    ensures
        r@ == s@,
{
    String::from_str(s)
}

/// The concatenation of two strings.
pub fn concat(a: &str, b: &str) -> (r: String)
    ensures
        r@ == a@ + b@,
{
    let mut out = String::from_str(a);
    out.append(b);
    out
}

/// `n` space characters.
pub open spec fn spaces(n: nat) -> Seq<char> {
    Seq::new(n, |i: int| ' ')
}

/// A string of `n` spaces (`" ".repeat(n)`).
pub fn repeat_space(n: usize) -> (r: String)
    ensures
        r@ == spaces(n as nat),
{
    let mut out = String::new();
    let mut i: usize = 0;
    while i < n
        invariant
            i <= n,
            out@ == spaces(i as nat),
        decreases n - i,
    {
        push_char(&mut out, ' ');
        assert(spaces(i as nat).push(' ') =~= spaces((i + 1) as nat));
        i += 1;
    }
    out
}

/// Whitespace in the sense of Unicode's `White_Space` property (`char::is_whitespace`).
pub open spec fn is_ws(c: char) -> bool {
    ||| ('\u{9}' <= c && c <= '\u{d}')
    ||| c == ' '
    ||| c == '\u{85}'
    ||| c == '\u{a0}'
    ||| c == '\u{1680}'
    ||| ('\u{2000}' <= c && c <= '\u{200a}')
    ||| c == '\u{2028}'
    ||| c == '\u{2029}'
    ||| c == '\u{202f}'
    ||| c == '\u{205f}'
    ||| c == '\u{3000}'
}

/// Whether `c` is whitespace.
pub fn is_whitespace(c: char) -> (r: bool)
    ensures
        r == is_ws(c),
{
    ('\u{9}' <= c && c <= '\u{d}') || c == ' ' || c == '\u{85}' || c == '\u{a0}' || c == '\u{1680}'
        || ('\u{2000}' <= c && c <= '\u{200a}') || c == '\u{2028}' || c == '\u{2029}' || c
        == '\u{202f}' || c == '\u{205f}' || c == '\u{3000}'
}

/// Index of the first non-whitespace character at or after `i` (or the length).
pub open spec fn first_non_ws(s: Seq<char>, i: int) -> int
    decreases s.len() - i,
{
    if i < 0 || i >= s.len() {
        s.len() as int
    } else if is_ws(s[i]) {
        first_non_ws(s, i + 1)
    } else {
        i
    }
}

/// End of `s[..j]` once trailing whitespace is dropped, never below `lo`.
pub open spec fn end_non_ws(s: Seq<char>, lo: int, j: int) -> int
    decreases j - lo,
{
    if j <= lo || j > s.len() {
        if j > s.len() { s.len() as int } else { lo }
    } else if is_ws(s[j - 1]) {
        end_non_ws(s, lo, j - 1)
    } else {
        j
    }
}

/// `s` without leading and trailing whitespace (`str::trim`).
pub open spec fn trimmed(s: Seq<char>) -> Seq<char> {
    let a = first_non_ws(s, 0);
    s.subrange(a, end_non_ws(s, a, s.len() as int))
}

proof fn lemma_first_non_ws_bounds(s: Seq<char>, i: int)
    requires
        0 <= i <= s.len(),
    ensures
        i <= first_non_ws(s, i) <= s.len(),
    decreases s.len() - i,
{
    if i < s.len() && is_ws(s[i]) {
        lemma_first_non_ws_bounds(s, i + 1);
    }
}

proof fn lemma_end_non_ws_bounds(s: Seq<char>, lo: int, j: int)
    requires
        0 <= lo <= j <= s.len(),
    ensures
        lo <= end_non_ws(s, lo, j) <= j,
    decreases j - lo,
{
    if j > lo && is_ws(s[j - 1]) {
        lemma_end_non_ws_bounds(s, lo, j - 1);
    }
}

/// Text that neither starts nor ends with whitespace is its own trimmed form.
pub proof fn lemma_trimmed_plain(s: Seq<char>)
    requires
        s.len() > 0,
        !is_ws(s[0]),
        !is_ws(s[s.len() - 1]),
    ensures
        trimmed(s) == s,
{
    assert(first_non_ws(s, 0) == 0);
    assert(end_non_ws(s, 0, s.len() as int) == s.len());
    assert(s.subrange(0, s.len() as int) =~= s);
}

/// `s` with leading and trailing whitespace removed.
pub fn trim(s: &str) -> (r: String)
    ensures
        r@ == trimmed(s@),
{
    let cs = chars_of(s);
    let n = cs.len();
    let mut a: usize = 0;
    while a < n && is_whitespace(cs[a])
        invariant
            a <= n,
            n == cs@.len(),
            cs@ == s@,
            first_non_ws(s@, 0) == first_non_ws(s@, a as int),
        decreases n - a,
    {
        a += 1;
    }
    proof {
        lemma_first_non_ws_bounds(s@, a as int);
    }
    let mut b: usize = n;
    while b > a && is_whitespace(cs[b - 1])
        invariant
            a <= b <= n,
            n == cs@.len(),
            cs@ == s@,
            first_non_ws(s@, 0) == a,
            end_non_ws(s@, a as int, n as int) == end_non_ws(s@, a as int, b as int),
        decreases b - a,
    {
        b -= 1;
    }
    let mut out = String::new();
    let mut k: usize = a;
    while k < b
        invariant
            a <= k <= b <= n,
            n == cs@.len(),
            cs@ == s@,
            out@ == s@.subrange(a as int, k as int),
        decreases b - k,
    {
        push_char(&mut out, cs[k]);
        assert(s@.subrange(a as int, k as int).push(s@[k as int]) =~= s@.subrange(
            a as int,
            k + 1,
        ));
        k += 1;
    }
    out
}

/// ASCII lower-casing of one character (`char::to_ascii_lowercase`).
pub open spec fn ascii_lower(c: char) -> char {
    if 'A' <= c && c <= 'Z' {
        ((c as u32) + 32) as char
    } else {
        c
    }
}

/// Equality up to ASCII case (`str::eq_ignore_ascii_case`).
pub open spec fn eq_ascii_ci(a: Seq<char>, b: Seq<char>) -> bool {
    &&& a.len() == b.len()
    &&& forall|i: int| 0 <= i < a.len() ==> ascii_lower(#[trigger] a[i]) == ascii_lower(b[i])
}

fn lower_char(c: char) -> (r: char)
    ensures
        r == ascii_lower(c),
{
    if 'A' <= c && c <= 'Z' {
        let v: u32 = (c as u32) + 32;
        assert(v <= 0x7f);
        char_from_ascii(v)
    } else {
        c
    }
}

/// The ASCII character with code `v`.
fn char_from_ascii(v: u32) -> (r: char)
    requires
        v <= 0x7f,
    ensures
        r == v as char,
{
    let b: u8 = v as u8;
    b as char
}

/// Whether two strings are equal up to ASCII case.
pub fn eq_ignore_ascii_case(a: &str, b: &str) -> (r: bool)
    ensures
        r == eq_ascii_ci(a@, b@),
{
    let x = chars_of(a);
    let y = chars_of(b);
    if x.len() != y.len() {
        return false;
    }
    let mut i: usize = 0;
    while i < x.len()
        invariant
            i <= x.len(),
            x.len() == y.len(),
            x@ == a@,
            y@ == b@,
            forall|k: int| 0 <= k < i ==> ascii_lower(#[trigger] a@[k]) == ascii_lower(b@[k]),
        decreases x.len() - i,
    {
        if lower_char(x[i]) != lower_char(y[i]) {
            return false;
        }
        i += 1;
    }
    true
}

/// Whether two strings hold the same characters.
pub fn same_text(a: &str, b: &str) -> (r: bool)
    ensures
        r == (a@ == b@),
{
    let x = chars_of(a);
    let y = chars_of(b);
    if x.len() != y.len() {
        return false;
    }
    let mut i: usize = 0;
    while i < x.len()
        invariant
            i <= x.len(),
            x.len() == y.len(),
            x@ == a@,
            y@ == b@,
            forall|k: int| 0 <= k < i ==> #[trigger] a@[k] == b@[k],
        decreases x.len() - i,
    {
        if x[i] != y[i] {
            return false;
        }
        i += 1;
    }
    assert(a@ =~= b@);
    true
}

/// Whether `p` is a prefix of `s` (`str::starts_with`).
pub fn starts_with(s: &str, p: &str) -> (r: bool)
    ensures
        r == p@.is_prefix_of(s@),
{
    let x = chars_of(s);
    let y = chars_of(p);
    if y.len() > x.len() {
        return false;
    }
    let mut i: usize = 0;
    while i < y.len()
        invariant
            i <= y.len() <= x.len(),
            x@ == s@,
            y@ == p@,
            forall|k: int| 0 <= k < i ==> #[trigger] p@[k] == s@[k],
        decreases y.len() - i,
    {
        if x[i] != y[i] {
            return false;
        }
        i += 1;
    }
    true
}

/// The first `n` characters of `s` (all of it when shorter).
pub open spec fn take_chars(s: Seq<char>, n: int) -> Seq<char> {
    if n < s.len() {
        s.take(n)
    } else {
        s
    }
}

/// `s.chars().take(n).collect()`.
pub fn prefix_chars(s: &str, n: usize) -> (r: String)
    ensures
        r@ == take_chars(s@, n as int),
{
    let cs = chars_of(s);
    let mut out = String::new();
    let mut i: usize = 0;
    while i < n && i < cs.len()
        invariant
            i <= cs.len(),
            i <= n,
            cs@ == s@,
            out@ == s@.take(i as int),
        decreases cs.len() - i,
    {
        push_char(&mut out, cs[i]);
        assert(s@.take(i as int).push(s@[i as int]) =~= s@.take(i + 1));
        i += 1;
    }
    proof {
        if (n as int) < s@.len() {
            assert(i == n);
        } else {
            assert(s@.take(i as int) =~= s@);
        }
    }
    out
}

/// Index of the first `sep` at or after `i` (or the length).
pub open spec fn next_sep(s: Seq<char>, sep: char, i: int) -> int
    decreases s.len() - i,
{
    if i < 0 || i >= s.len() {
        s.len() as int
    } else if s[i] == sep {
        i
    } else {
        next_sep(s, sep, i + 1)
    }
}

/// The pieces of `s[i..]` between occurrences of `sep` (`str::split`).
pub open spec fn split_from(s: Seq<char>, sep: char, i: int) -> Seq<Seq<char>>
    decreases s.len() - i,
{
    if i < 0 || i > s.len() {
        seq![]
    } else {
        let n = next_sep(s, sep, i);
        if n >= s.len() || n < i {
            seq![s.subrange(i, s.len() as int)]
        } else {
            seq![s.subrange(i, n)] + split_from(s, sep, n + 1)
        }
    }
}

proof fn lemma_next_sep(s: Seq<char>, sep: char, i: int)
    requires
        0 <= i <= s.len(),
    ensures
        i <= next_sep(s, sep, i) <= s.len(),
        next_sep(s, sep, i) < s.len() ==> s[next_sep(s, sep, i)] == sep,
        forall|k: int| i <= k < next_sep(s, sep, i) ==> s[k] != sep,
    decreases s.len() - i,
{
    if i < s.len() && s[i] != sep {
        lemma_next_sep(s, sep, i + 1);
    }
}

/// Trimmed, non-empty pieces, in order.
pub open spec fn keep_tokens(pieces: Seq<Seq<char>>) -> Seq<Seq<char>>
    decreases pieces.len(),
{
    if pieces.len() == 0 {
        seq![]
    } else if trimmed(pieces[0]).len() == 0 {
        keep_tokens(pieces.drop_first())
    } else {
        seq![trimmed(pieces[0])] + keep_tokens(pieces.drop_first())
    }
}

/// The comma-separated tokens of `s`, each trimmed, empty ones dropped
/// (`s.split(',').map(str::trim).filter(|t| !t.is_empty())`).
pub open spec fn comma_tokens(s: Seq<char>) -> Seq<Seq<char>> {
    keep_tokens(split_from(s, ',', 0))
}

proof fn lemma_keep_tokens_append(a: Seq<Seq<char>>, b: Seq<Seq<char>>)
    ensures
        keep_tokens(a + b) == keep_tokens(a) + keep_tokens(b),
    decreases a.len(),
{
    if a.len() == 0 {
        assert(a + b =~= b);
    } else {
        assert((a + b).drop_first() =~= a.drop_first() + b);
        lemma_keep_tokens_append(a.drop_first(), b);
    }
}

/// The views of a vector of strings.
pub open spec fn views(v: Seq<String>) -> Seq<Seq<char>> {
    v.map_values(|x: String| x@)
}

/// The trimmed, non-empty comma-separated tokens of `s`.
pub fn comma_separated(s: &str) -> (r: Vec<String>)
    ensures
        views(r@) == comma_tokens(s@),
{
    let cs = chars_of(s);
    let n = cs.len();
    let mut out: Vec<String> = Vec::new();
    let mut start: usize = 0;
    let ghost mut done: Seq<Seq<char>> = seq![];
    proof {
        assert(split_from(s@, ',', 0) == done + split_from(s@, ',', 0));
    }
    loop
        invariant
            start <= n,
            n == cs@.len(),
            cs@ == s@,
            split_from(s@, ',', 0) == done + split_from(s@, ',', start as int),
            views(out@) == keep_tokens(done),
        decreases n - start,
    {
        let mut j: usize = start;
        while j < n && cs[j] != ','
            invariant
                start <= j <= n,
                n == cs@.len(),
                cs@ == s@,
                next_sep(s@, ',', start as int) == next_sep(s@, ',', j as int),
            decreases n - j,
        {
            j += 1;
        }
        proof {
            lemma_next_sep(s@, ',', j as int);
        }
        let mut piece: Vec<char> = Vec::new();
        let mut k: usize = start;
        while k < j
            invariant
                start <= k <= j <= n,
                n == cs@.len(),
                cs@ == s@,
                piece@ == s@.subrange(start as int, k as int),
            decreases j - k,
        {
            piece.push(cs[k]);
            assert(s@.subrange(start as int, k as int).push(s@[k as int]) =~= s@.subrange(
                start as int,
                k + 1,
            ));
            k += 1;
        }
        let piece_s = string_of(&piece);
        let t = trim(piece_s.as_str());
        let ghost p = s@.subrange(start as int, j as int);
        proof {
            lemma_keep_tokens_append(done, seq![p]);
            assert(seq![p].drop_first() =~= Seq::<Seq<char>>::empty());
            assert(keep_tokens(Seq::<Seq<char>>::empty()) == Seq::<Seq<char>>::empty());
            assert(t@ == trimmed(p));
            if trimmed(p).len() == 0 {
                assert(keep_tokens(seq![p]) =~= Seq::<Seq<char>>::empty());
            } else {
                assert(keep_tokens(seq![p]) =~= seq![trimmed(p)]);
            }
        }
        if !t.as_str().is_empty() {
            out.push(t);
            proof {
                assert(views(out@) =~= views(out@.drop_last()).push(trimmed(p)));
            }
        }
        proof {
            assert(views(out@) == keep_tokens(done + seq![p]));
        }
        if j >= n {
            proof {
                done = done + seq![p];
                assert(split_from(s@, ',', start as int) =~= seq![p]);
                assert(done =~= split_from(s@, ',', 0));
            }
            return out;
        }
        proof {
            assert(split_from(s@, ',', start as int) =~= seq![p] + split_from(
                s@,
                ',',
                j + 1,
            ));
            assert(done + split_from(s@, ',', start as int) =~= (done + seq![p]) + split_from(
                s@,
                ',',
                j + 1,
            ));
            done = done + seq![p];
        }
        start = j + 1;
    }
}

/// The decimal digit for `d` (0 to 9).
pub open spec fn digit_char(d: nat) -> char {
    if d == 0 {
        '0'
    } else if d == 1 {
        '1'
    } else if d == 2 {
        '2'
    } else if d == 3 {
        '3'
    } else if d == 4 {
        '4'
    } else if d == 5 {
        '5'
    } else if d == 6 {
        '6'
    } else if d == 7 {
        '7'
    } else if d == 8 {
        '8'
    } else {
        '9'
    }
}

/// The decimal notation of `n`, as `{}` prints an unsigned integer.
pub open spec fn decimal(n: nat) -> Seq<char>
    decreases n,
{
    if n < 10 {
        seq![digit_char(n)]
    } else {
        decimal(n / 10).push(digit_char(n % 10))
    }
}

fn digit(d: u64) -> (c: char)
    requires
        d < 10,
    ensures
        c == digit_char(d as nat),
{
    match d {
        0 => '0',
        1 => '1',
        2 => '2',
        3 => '3',
        4 => '4',
        5 => '5',
        6 => '6',
        7 => '7',
        8 => '8',
        _ => '9',
    }
}

/// The decimal notation of `n`.
pub fn decimal_string(n: u64) -> (r: String)
    ensures
        r@ == decimal(n as nat),
    decreases n,
{
    if n < 10 {
        let mut s = String::new();
        push_char(&mut s, digit(n));
        assert(s@ =~= seq![digit_char(n as nat)]);
        s
    } else {
        let mut s = decimal_string(n / 10);
        push_char(&mut s, digit(n % 10));
        s
    }
}

/// `v` in decimal, with a minus sign when negative (as `{}` prints a signed integer).
pub open spec fn signed_decimal(v: int) -> Seq<char> {
    if v < 0 {
        "-"@ + decimal((-v) as nat)
    } else {
        decimal(v as nat)
    }
}

/// The decimal notation of a signed integer.
pub fn signed_decimal_string(v: i64) -> (r: String)
    ensures
        r@ == signed_decimal(v as int),
{
    if v < 0 {
        let mag: u64 = (-(v as i128)) as u64;
        let digits = decimal_string(mag);
        concat("-", digits.as_str())
    } else {
        decimal_string(v as u64)
    }
}

/// Strings joined with a separator (`[..].join(sep)`).
pub open spec fn join_sep(parts: Seq<Seq<char>>, sep: Seq<char>) -> Seq<char>
    decreases parts.len(),
{
    if parts.len() == 0 {
        seq![]
    } else if parts.len() == 1 {
        parts[0]
    } else {
        join_sep(parts.drop_last(), sep) + sep + parts.last()
    }
}

/// Strings joined with a separator.
pub fn join_strings(v: &Vec<String>, sep: &str) -> (r: String)
    ensures
        r@ == join_sep(views(v@), sep@),
{
    let mut out = String::new();
    let mut i: usize = 0;
    while i < v.len()
        invariant
            i <= v@.len(),
            out@ == join_sep(views(v@.take(i as int)), sep@),
        decreases v@.len() - i,
    {
        proof {
            assert(views(v@.take(i + 1)).drop_last() =~= views(v@.take(i as int)));
            assert(views(v@.take(i + 1)).last() == v@[i as int]@);
        }
        if i == 0 {
            out = owned(v[0].as_str());
            proof {
                assert(views(v@.take(1)).len() == 1);
            }
        } else {
            out = concat(concat(out.as_str(), sep).as_str(), v[i].as_str());
        }
        i += 1;
    }
    proof {
        assert(v@.take(v@.len() as int) =~= v@);
    }
    out
}

/// The first position of `c` in `s`, if any.
pub open spec fn find_char(s: Seq<char>, c: char) -> Option<int> {
    if exists|i: int| 0 <= i < s.len() && s[i] == c {
        Some(choose|i: int| 0 <= i < s.len() && s[i] == c && forall|j: int| 0 <= j < i ==> s[j] != c)
    } else {
        None
    }
}

/// Splits at the first `c` (`str::split_once`).
pub fn split_once_char(s: &str, c: char) -> (r: Option<(String, String)>)
    ensures
        match find_char(s@, c) {
            Some(i) => r matches Some((a, b)) && a@ == s@.take(i) && b@ == s@.skip(i + 1),
            None => r is None,
        },
{
    let cs = chars_of(s);
    let mut i: usize = 0;
    while i < cs.len()
        invariant
            i <= cs@.len(),
            cs@ == s@,
            forall|j: int| 0 <= j < i ==> s@[j] != c,
        decreases cs@.len() - i,
    {
        if cs[i] == c {
            let mut a: Vec<char> = Vec::new();
            let mut k: usize = 0;
            while k < i
                invariant
                    k <= i < cs@.len(),
                    a@ == cs@.take(k as int),
                decreases i - k,
            {
                a.push(cs[k]);
                proof {
                    assert(cs@.take(k as int).push(cs@[k as int]) =~= cs@.take(k + 1));
                }
                k += 1;
            }
            let mut b: Vec<char> = Vec::new();
            let mut m: usize = i + 1;
            while m < cs.len()
                invariant
                    i < cs@.len(),
                    i + 1 <= m <= cs@.len(),
                    b@ == cs@.subrange(i + 1, m as int),
                decreases cs@.len() - m,
            {
                b.push(cs[m]);
                proof {
                    assert(cs@.subrange(i + 1, m as int).push(cs@[m as int]) =~= cs@.subrange(i + 1, m + 1));
                }
                m += 1;
            }
            proof {
                let w = choose|w: int| 0 <= w < s@.len() && s@[w] == c && forall|j: int| 0 <= j < w ==> s@[j] != c;
                assert(w == i);
                assert(cs@.subrange(i + 1, cs@.len() as int) =~= s@.skip(i + 1));
            }
            return Some((string_of(&a), string_of(&b)));
        }
        i += 1;
    }
    None
}

} // verus!
