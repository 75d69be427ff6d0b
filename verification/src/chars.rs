//! Character-level string operations with exact specifications: trimming,
//! prefix/suffix stripping, substring search and decimal-digit parsing.

use vstd::prelude::*;
use crate::text::string_of;

verus! {

/// Unicode `White_Space`, the property behind `char::is_whitespace`.
pub open spec fn is_ws(c: char) -> bool {
    ('\u{9}' <= c && c <= '\u{d}') || c == ' ' || c == '\u{85}' || c == '\u{a0}' || c == '\u{1680}'
        || ('\u{2000}' <= c && c <= '\u{200a}') || c == '\u{2028}' || c == '\u{2029}' || c == '\u{202f}'
        || c == '\u{205f}' || c == '\u{3000}'
}

pub fn is_whitespace(c: char) -> (b: bool)
    ensures
        b == is_ws(c),
{
    ('\u{9}' <= c && c <= '\u{d}') || c == ' ' || c == '\u{85}' || c == '\u{a0}' || c == '\u{1680}'
        || ('\u{2000}' <= c && c <= '\u{200a}') || c == '\u{2028}' || c == '\u{2029}' || c == '\u{202f}'
        || c == '\u{205f}' || c == '\u{3000}'
}

/// `str::trim_start`.
pub open spec fn trim_start(s: Seq<char>) -> Seq<char>
    decreases s.len(),
{
    if s.len() > 0 && is_ws(s[0]) { trim_start(s.drop_first()) } else { s }
}

/// `str::trim_end`.
pub open spec fn trim_end(s: Seq<char>) -> Seq<char>
    decreases s.len(),
{
    if s.len() > 0 && is_ws(s.last()) { trim_end(s.drop_last()) } else { s }
}

/// `str::trim`.
pub open spec fn trim(s: Seq<char>) -> Seq<char> {
    trim_end(trim_start(s))
}

/// `str::trim_end_matches` with a one-character pattern.
pub open spec fn trim_end_char(s: Seq<char>, c: char) -> Seq<char>
    decreases s.len(),
{
    if s.len() > 0 && s.last() == c { trim_end_char(s.drop_last(), c) } else { s }
}

pub open spec fn has_prefix(s: Seq<char>, p: Seq<char>) -> bool {
    p.len() <= s.len() && s.subrange(0, p.len() as int) == p
}

pub open spec fn has_suffix(s: Seq<char>, p: Seq<char>) -> bool {
    p.len() <= s.len() && s.subrange(s.len() - p.len(), s.len() as int) == p
}

/// `str::trim_start_matches` with a non-empty string pattern.
pub open spec fn trim_start_str(s: Seq<char>, p: Seq<char>) -> Seq<char>
    decreases s.len(),
{
    if p.len() > 0 && has_prefix(s, p) { trim_start_str(s.subrange(p.len() as int, s.len() as int), p) } else { s }
}

/// `str::trim_end_matches` with a non-empty string pattern.
pub open spec fn trim_end_str(s: Seq<char>, p: Seq<char>) -> Seq<char>
    decreases s.len(),
{
    if p.len() > 0 && has_suffix(s, p) { trim_end_str(s.subrange(0, s.len() - p.len()), p) } else { s }
}

pub open spec fn occurs_at(s: Seq<char>, p: Seq<char>, i: int) -> bool {
    0 <= i && i + p.len() <= s.len() && s.subrange(i, i + p.len()) == p
}

/// The first occurrence of `p` in `s` at or after `i` (`str::find` from 0).
pub open spec fn find_from(s: Seq<char>, p: Seq<char>, i: int) -> Option<int>
    decreases s.len() + 1 - i,
{
    if i < 0 || i + p.len() > s.len() {
        None
    } else if occurs_at(s, p, i) {
        Some(i)
    } else {
        find_from(s, p, i + 1)
    }
}

pub open spec fn is_digit(c: char) -> bool {
    '0' <= c && c <= '9'
}

/// The leading ASCII digits of `s` (`chars().take_while(char::is_ascii_digit)`).
pub open spec fn leading_digits(s: Seq<char>) -> Seq<char>
    decreases s.len(),
{
    if s.len() > 0 && is_digit(s[0]) { seq![s[0]] + leading_digits(s.drop_first()) } else { seq![] }
}

/// The number a string of decimal digits denotes.
pub open spec fn digits_value(d: Seq<char>) -> nat
    decreases d.len(),
{
    if d.len() == 0 { 0 } else { digits_value(d.drop_last()) * 10 + ((d.last() as int) - ('0' as int)) as nat }
}

/// `str::parse::<u32>` on a string of decimal digits: refused when empty or
/// out of range.
pub open spec fn parse_u32_digits(d: Seq<char>) -> Option<u32> {
    if d.len() == 0 || digits_value(d) > u32::MAX { None } else { Some(digits_value(d) as u32) }
}

/// A copy of the characters `v[a..b]` as a `String`.
pub fn sub_string(v: &Vec<char>, a: usize, b: usize) -> (s: String)
    requires
        a <= b <= v@.len(),
    ensures
        s@ == v@.subrange(a as int, b as int),
{
    let mut out: Vec<char> = Vec::new();
    let mut i = a;
    while i < b
        invariant
            a <= i <= b <= v@.len(),
            out@ == v@.subrange(a as int, i as int),
        decreases b - i,
    {
        out.push(v[i]);
        assert(out@ =~= v@.subrange(a as int, i + 1));
        i = i + 1;
    }
    string_of(out.as_slice())
}

proof fn lemma_trim_start_step(s: Seq<char>, i: int)
    requires
        0 <= i < s.len(),
        is_ws(s[i]),
    ensures
        trim_start(s.subrange(i, s.len() as int)) == trim_start(s.subrange(i + 1, s.len() as int)),
{
    assert(s.subrange(i, s.len() as int).drop_first() =~= s.subrange(i + 1, s.len() as int));
}

proof fn lemma_trim_end_step(s: Seq<char>, j: int)
    requires
        0 < j <= s.len(),
        is_ws(s[j - 1]),
    ensures
        trim_end(s.subrange(0, j)) == trim_end(s.subrange(0, j - 1)),
{
    assert(s.subrange(0, j).drop_last() =~= s.subrange(0, j - 1));
}

/// Bounds `(a, b)` with `v[a..b]` the trimmed text.
pub fn trim_bounds(v: &Vec<char>) -> (r: (usize, usize))
    ensures
        r.0 <= r.1 <= v@.len(),
        v@.subrange(r.0 as int, r.1 as int) == trim(v@),
{
    let n = v.len();
    let mut a: usize = 0;
    assert(v@.subrange(0, n as int) =~= v@);
    while a < n && is_whitespace(v[a])
        invariant
            a <= n == v@.len(),
            trim_start(v@) == trim_start(v@.subrange(a as int, n as int)),
        decreases n - a,
    {
        proof { lemma_trim_start_step(v@, a as int); }
        a = a + 1;
    }
    let ghost ts = v@.subrange(a as int, n as int);
    assert(trim_start(ts) == ts);
    assert(trim_start(v@) == ts);
    let mut b: usize = n;
    while b > a && is_whitespace(v[b - 1])
        invariant
            a <= b <= n == v@.len(),
            ts == v@.subrange(a as int, n as int),
            trim_end(ts) == trim_end(v@.subrange(a as int, b as int)),
        decreases b,
    {
        proof {
            let u = v@.subrange(a as int, b as int);
            lemma_trim_end_step(u, (b - a) as int);
            assert(u.subrange(0, (b - a) as int) =~= u);
            assert(u.subrange(0, (b - a - 1) as int) =~= v@.subrange(a as int, b - 1));
        }
        b = b - 1;
    }
    assert(trim_end(v@.subrange(a as int, b as int)) == v@.subrange(a as int, b as int));
    (a, b)
}

/// `text.trim()` as a fresh string.
pub fn trimmed(text: &str) -> (s: String)
    ensures
        s@ == trim(text@),
{
    let v = crate::text::chars_of(text);
    let (a, b) = trim_bounds(&v);
    sub_string(&v, a, b)
}

/// The length after `trim_end_matches(c)` on `v[0..n]`.
pub fn trim_end_char_len(v: &Vec<char>, n: usize, c: char) -> (m: usize)
    requires
        n <= v@.len(),
    ensures
        m <= n,
        v@.subrange(0, m as int) == trim_end_char(v@.subrange(0, n as int), c),
{
    let mut m = n;
    while m > 0 && v[m - 1] == c
        invariant
            m <= n <= v@.len(),
            trim_end_char(v@.subrange(0, n as int), c) == trim_end_char(v@.subrange(0, m as int), c),
        decreases m,
    {
        assert(v@.subrange(0, m as int).drop_last() =~= v@.subrange(0, m - 1));
        m = m - 1;
    }
    m
}

/// Whether `p` occurs in `v` at `i`.
pub fn occurs_at_exec(v: &Vec<char>, n: usize, p: &Vec<char>, i: usize) -> (b: bool)
    requires
        n <= v@.len(),
    ensures
        b == occurs_at(v@.subrange(0, n as int), p@, i as int),
{
    let ghost s = v@.subrange(0, n as int);
    if i > n || p.len() > n - i {
        return false;
    }
    let mut j: usize = 0;
    while j < p.len()
        invariant
            i + p@.len() <= n <= v@.len(),
            s == v@.subrange(0, n as int),
            j <= p@.len(),
            forall|q: int| 0 <= q < j ==> s[i + q] == p@[q],
        decreases p@.len() - j,
    {
        if v[i + j] != p[j] {
            assert(s.subrange(i as int, i + p@.len())[j as int] != p@[j as int]);
            return false;
        }
        j = j + 1;
    }
    assert(s.subrange(i as int, i + p@.len()) =~= p@);
    true
}

/// `str::find` on `v[0..n]`.
pub fn find_exec(v: &Vec<char>, n: usize, p: &Vec<char>) -> (r: Option<usize>)
    requires
        n <= v@.len(),
    ensures
        r matches Some(i) ==> find_from(v@.subrange(0, n as int), p@, 0) == Some(i as int),
        r is None ==> find_from(v@.subrange(0, n as int), p@, 0) is None,
{
    let ghost s = v@.subrange(0, n as int);
    let mut i: usize = 0;
    while i <= n
        invariant
            n <= v@.len(),
            s == v@.subrange(0, n as int),
            find_from(s, p@, 0) == find_from(s, p@, i as int),
        decreases n + 1 - i,
    {
        if p.len() > n - i {
            assert(find_from(s, p@, i as int) is None);
            return None;
        }
        if occurs_at_exec(v, n, p, i) {
            return Some(i);
        }
        if i == n {
            assert(find_from(s, p@, i + 1) is None);
            assert(find_from(s, p@, i as int) == find_from(s, p@, i + 1));
            return None;
        }
        i = i + 1;
    }
    None
}


/// A copy of the characters `v[a..b]`.
pub fn sub_vec(v: &Vec<char>, a: usize, b: usize) -> (w: Vec<char>)
    requires
        a <= b <= v@.len(),
    ensures
        w@ == v@.subrange(a as int, b as int),
{
    let mut out: Vec<char> = Vec::new();
    let mut i = a;
    while i < b
        invariant
            a <= i <= b <= v@.len(),
            out@ == v@.subrange(a as int, i as int),
        decreases b - i,
    {
        out.push(v[i]);
        assert(out@ =~= v@.subrange(a as int, i + 1));
        i = i + 1;
    }
    out
}

/// Whether `v[a..b]` starts with `p`.
pub fn starts_with_at(v: &Vec<char>, a: usize, b: usize, p: &Vec<char>) -> (r: bool)
    requires
        a <= b <= v@.len(),
    ensures
        r == has_prefix(v@.subrange(a as int, b as int), p@),
{
    let ghost w = v@.subrange(a as int, b as int);
    if p.len() > b - a {
        return false;
    }
    let mut j: usize = 0;
    while j < p.len()
        invariant
            a <= b <= v@.len(),
            p@.len() <= b - a,
            w == v@.subrange(a as int, b as int),
            j <= p@.len(),
            forall|q: int| 0 <= q < j ==> w[q] == p@[q],
        decreases p@.len() - j,
    {
        if v[a + j] != p[j] {
            assert(w.subrange(0, p@.len() as int)[j as int] != p@[j as int]);
            return false;
        }
        j = j + 1;
    }
    assert(w.subrange(0, p@.len() as int) =~= p@);
    true
}

/// Whether `v[a..b]` ends with `p`.
pub fn ends_with_at(v: &Vec<char>, a: usize, b: usize, p: &Vec<char>) -> (r: bool)
    requires
        a <= b <= v@.len(),
    ensures
        r == has_suffix(v@.subrange(a as int, b as int), p@),
{
    let ghost w = v@.subrange(a as int, b as int);
    if p.len() > b - a {
        return false;
    }
    let c = b - p.len();
    let r = starts_with_at(v, c, b, p);
    assert(w.subrange(w.len() - p@.len(), w.len() as int) =~= v@.subrange(c as int, b as int));
    assert(v@.subrange(c as int, b as int).subrange(0, p@.len() as int) =~= v@.subrange(c as int, b as int));
    r
}

/// `trim_end_matches(p)` on `v[a..b]`, as a new end.
pub fn trim_end_str_at(v: &Vec<char>, a: usize, b: usize, p: &Vec<char>) -> (e: usize)
    requires
        a <= b <= v@.len(),
        p@.len() > 0,
    ensures
        a <= e <= b,
        v@.subrange(a as int, e as int) == trim_end_str(v@.subrange(a as int, b as int), p@),
{
    let mut e = b;
    while ends_with_at(v, a, e, p)
        invariant
            a <= e <= b <= v@.len(),
            p@.len() > 0,
            trim_end_str(v@.subrange(a as int, b as int), p@) == trim_end_str(v@.subrange(a as int, e as int), p@),
        decreases e,
    {
        assert(v@.subrange(a as int, e as int).subrange(0, e - a - p@.len()) =~= v@.subrange(a as int, e - p@.len()));
        e = e - p.len();
    }
    e
}

/// `trim_start_matches(p)` on `v[a..b]`, as a new start.
pub fn trim_start_str_at(v: &Vec<char>, a: usize, b: usize, p: &Vec<char>) -> (s: usize)
    requires
        a <= b <= v@.len(),
        p@.len() > 0,
    ensures
        a <= s <= b,
        v@.subrange(s as int, b as int) == trim_start_str(v@.subrange(a as int, b as int), p@),
{
    let mut s = a;
    while starts_with_at(v, s, b, p)
        invariant
            a <= s <= b <= v@.len(),
            p@.len() > 0,
            trim_start_str(v@.subrange(a as int, b as int), p@) == trim_start_str(v@.subrange(s as int, b as int), p@),
        decreases b - s,
    {
        assert(v@.subrange(s as int, b as int).subrange(p@.len() as int, b - s) =~= v@.subrange(s + p@.len(), b as int));
        s = s + p.len();
    }
    s
}


pub proof fn lemma_find_from_occurs(s: Seq<char>, p: Seq<char>, i: int)
    ensures
        find_from(s, p, i) matches Some(j) ==> occurs_at(s, p, j) && i <= j,
    decreases s.len() + 1 - i,
{
    if !(i < 0 || i + p.len() > s.len()) && !occurs_at(s, p, i) {
        lemma_find_from_occurs(s, p, i + 1);
    }
}


/// Whether two strings hold the same characters.
pub fn text_eq(a: &str, b: &str) -> (r: bool)
    ensures
        r == (a@ == b@),
{
    let v = crate::text::chars_of(a);
    let w = crate::text::chars_of(b);
    if v.len() != w.len() {
        return false;
    }
    let mut i: usize = 0;
    while i < v.len()
        invariant
            v@ == a@,
            w@ == b@,
            v@.len() == w@.len(),
            i <= v@.len(),
            forall|j: int| 0 <= j < i ==> v@[j] == w@[j],
        decreases v@.len() - i,
    {
        if v[i] != w[i] {
            return false;
        }
        i = i + 1;
    }
    assert(v@ =~= w@);
    true
}

/// Whether `text` starts with `prefix`.
pub fn text_starts_with(text: &str, prefix: &str) -> (r: bool)
    ensures
        r == has_prefix(text@, prefix@),
{
    let v = crate::text::chars_of(text);
    let p = crate::text::chars_of(prefix);
    assert(v@.subrange(0, v@.len() as int) =~= v@);
    starts_with_at(&v, 0, v.len(), &p)
}

/// The index of the first `c` at or after `i` (`str::find` with a char).
pub open spec fn first_from(s: Seq<char>, c: char, i: int) -> Option<int>
    decreases s.len() - i,
{
    if i < 0 || i >= s.len() {
        None
    } else if s[i] == c {
        Some(i)
    } else {
        first_from(s, c, i + 1)
    }
}

/// The index of the last `c` before `n` (`str::rfind` with a char).
pub open spec fn last_before(s: Seq<char>, c: char, n: int) -> Option<int>
    decreases n,
{
    if n <= 0 || n > s.len() {
        None
    } else if s[n - 1] == c {
        Some(n - 1)
    } else {
        last_before(s, c, n - 1)
    }
}

pub fn first_index(v: &Vec<char>, c: char) -> (r: Option<usize>)
    ensures
        match r {
            Some(i) => first_from(v@, c, 0) == Some(i as int),
            None => first_from(v@, c, 0) is None,
        },
{
    let mut i: usize = 0;
    while i < v.len()
        invariant
            i <= v@.len(),
            first_from(v@, c, 0) == first_from(v@, c, i as int),
        decreases v@.len() - i,
    {
        if v[i] == c {
            return Some(i);
        }
        i = i + 1;
    }
    None
}

pub fn last_index(v: &Vec<char>, c: char) -> (r: Option<usize>)
    ensures
        match r {
            Some(i) => last_before(v@, c, v@.len() as int) == Some(i as int),
            None => last_before(v@, c, v@.len() as int) is None,
        },
{
    let mut n: usize = v.len();
    while n > 0
        invariant
            n <= v@.len(),
            last_before(v@, c, v@.len() as int) == last_before(v@, c, n as int),
        decreases n,
    {
        if v[n - 1] == c {
            return Some(n - 1);
        }
        n = n - 1;
    }
    None
}

pub proof fn lemma_first_from_found(s: Seq<char>, c: char, i: int)
    ensures
        first_from(s, c, i) matches Some(j) ==> i <= j < s.len() && s[j] == c,
    decreases s.len() - i,
{
    if !(i < 0 || i >= s.len()) && s[i] != c {
        lemma_first_from_found(s, c, i + 1);
    }
}

pub proof fn lemma_last_before_found(s: Seq<char>, c: char, n: int)
    ensures
        last_before(s, c, n) matches Some(j) ==> 0 <= j < n && s[j] == c,
    decreases n,
{
    if !(n <= 0 || n > s.len()) && s[n - 1] != c {
        lemma_last_before_found(s, c, n - 1);
    }
}

} // verus!
