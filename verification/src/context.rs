//! Which sandbox files the planner reads, and in what order: everything but
//! build output and git metadata, sorted by relative path (then content), so
//! that the same sandbox always yields the same prompt.

use vstd::prelude::*;
use vstd::relations::{sorted_by, total_ordering};
use crate::chars::text_eq;
use crate::text::chars_of;

verus! {

broadcast use vstd::seq_lib::group_to_multiset_ensures;

/// Directories whose contents are never planner context.
pub open spec fn skipped_dir(name: Seq<char>) -> bool {
    name == "target"@ || name == ".git"@
}

/// Whether a directory named `name` is left out of the planner's context.
pub fn is_skipped_dir(name: &str) -> (b: bool)
    ensures
        b == skipped_dir(name@),
{
    text_eq(name, "target") || text_eq(name, ".git")
}

/// Lexicographic order of texts from position `i` on, when they agree before it.
pub open spec fn text_lt_from(a: Seq<char>, b: Seq<char>, i: int) -> bool
    decreases a.len() - i,
{
    if i >= a.len() {
        i < b.len()
    } else if i >= b.len() {
        false
    } else if a[i] != b[i] {
        a[i] < b[i]
    } else {
        text_lt_from(a, b, i + 1)
    }
}

/// `a` sorts strictly before `b`, character by character (a proper prefix
/// first). On Rust strings this is the order of `str`, since UTF-8 keeps the
/// order of code points.
pub open spec fn text_lt(a: Seq<char>, b: Seq<char>) -> bool {
    text_lt_from(a, b, 0)
}

/// The order of `(path, content)` pairs: by path, then by content.
pub open spec fn entry_lt(x: (Seq<char>, Seq<char>), y: (Seq<char>, Seq<char>)) -> bool {
    text_lt(x.0, y.0) || (x.0 == y.0 && text_lt(x.1, y.1))
}

pub open spec fn entry_view(e: (String, String)) -> (Seq<char>, Seq<char>) {
    (e.0@, e.1@)
}

/// No entry sorts strictly before an earlier one.
pub open spec fn context_sorted(s: Seq<(String, String)>) -> bool {
    forall|i: int, j: int|
        0 <= i < j < s.len() ==> !entry_lt(entry_view(#[trigger] s[j]), entry_view(#[trigger] s[i]))
}

proof fn lemma_text_lt_from_transitive(a: Seq<char>, b: Seq<char>, c: Seq<char>, i: int)
    requires
        0 <= i,
        i <= a.len(),
        i <= b.len(),
        i <= c.len(),
        text_lt_from(a, b, i),
        text_lt_from(b, c, i),
    ensures
        text_lt_from(a, c, i),
    decreases a.len() - i,
{
    if i < a.len() && i < b.len() && i < c.len() && a[i] == b[i] && b[i] == c[i] {
        lemma_text_lt_from_transitive(a, b, c, i + 1);
    }
}

pub proof fn lemma_text_lt_transitive(a: Seq<char>, b: Seq<char>, c: Seq<char>)
    requires
        text_lt(a, b),
        text_lt(b, c),
    ensures
        text_lt(a, c),
{
    lemma_text_lt_from_transitive(a, b, c, 0);
}

proof fn lemma_text_lt_from_irreflexive(a: Seq<char>, i: int)
    requires
        0 <= i <= a.len(),
    ensures
        !text_lt_from(a, a, i),
    decreases a.len() - i,
{
    if i < a.len() {
        lemma_text_lt_from_irreflexive(a, i + 1);
    }
}

proof fn lemma_text_lt_from_total(a: Seq<char>, b: Seq<char>, i: int)
    requires
        0 <= i,
        i <= a.len(),
        i <= b.len(),
        forall|j: int| 0 <= j < i ==> a[j] == b[j],
        a != b,
    ensures
        text_lt_from(a, b, i) || text_lt_from(b, a, i),
    decreases a.len() - i,
{
    if i == a.len() && i == b.len() {
        assert(a =~= b);
    } else if i < a.len() && i < b.len() && a[i] == b[i] {
        lemma_text_lt_from_total(a, b, i + 1);
    }
}

/// The text order is a strict total order.
pub proof fn lemma_text_lt_strict_total(a: Seq<char>, b: Seq<char>)
    ensures
        !text_lt(a, a),
        a != b ==> text_lt(a, b) || text_lt(b, a),
{
    lemma_text_lt_from_irreflexive(a, 0);
    if a != b {
        lemma_text_lt_from_total(a, b, 0);
    }
}

pub proof fn lemma_entry_lt_transitive(x: (Seq<char>, Seq<char>), y: (Seq<char>, Seq<char>), z: (Seq<char>, Seq<char>))
    requires
        entry_lt(x, y),
        entry_lt(y, z),
    ensures
        entry_lt(x, z),
{
    if text_lt(x.0, y.0) && text_lt(y.0, z.0) {
        lemma_text_lt_transitive(x.0, y.0, z.0);
    } else if x.0 == y.0 && y.0 == z.0 {
        lemma_text_lt_transitive(x.1, y.1, z.1);
    }
}

/// The entry order is a strict total order.
pub proof fn lemma_entry_lt_strict_total(x: (Seq<char>, Seq<char>), y: (Seq<char>, Seq<char>))
    ensures
        !entry_lt(x, x),
        x != y ==> entry_lt(x, y) || entry_lt(y, x),
{
    lemma_text_lt_strict_total(x.0, y.0);
    lemma_text_lt_strict_total(x.1, y.1);
    lemma_text_lt_strict_total(y.0, x.0);
}

/// The entries' `(path, content)` texts, in order.
pub open spec fn context_views(s: Seq<(String, String)>) -> Seq<(Seq<char>, Seq<char>)> {
    s.map_values(|e: (String, String)| entry_view(e))
}

/// "Not after": the total order whose strict part is `entry_lt`.
pub open spec fn entry_le() -> spec_fn((Seq<char>, Seq<char>), (Seq<char>, Seq<char>)) -> bool {
    |x: (Seq<char>, Seq<char>), y: (Seq<char>, Seq<char>)| !entry_lt(y, x)
}

proof fn lemma_entry_le_total_ordering()
    ensures
        total_ordering(entry_le()),
{
    let le = entry_le();
    assert forall|x: (Seq<char>, Seq<char>)| #[trigger] le(x, x) by {
        lemma_entry_lt_strict_total(x, x);
    }
    assert forall|x: (Seq<char>, Seq<char>), y: (Seq<char>, Seq<char>)|
        #[trigger] le(x, y) && #[trigger] le(y, x) implies x == y by {
        lemma_entry_lt_strict_total(x, y);
    }
    assert forall|x: (Seq<char>, Seq<char>), y: (Seq<char>, Seq<char>), z: (Seq<char>, Seq<char>)|
        #[trigger] le(x, y) && #[trigger] le(y, z) implies le(x, z) by {
        if entry_lt(z, x) {
            lemma_entry_lt_strict_total(x, y);
            if entry_lt(x, y) {
                lemma_entry_lt_transitive(z, x, y);
            }
        }
    }
    assert forall|x: (Seq<char>, Seq<char>), y: (Seq<char>, Seq<char>)|
        #[trigger] le(x, y) || #[trigger] le(y, x) by {
        if entry_lt(y, x) && entry_lt(x, y) {
            lemma_entry_lt_transitive(x, y, x);
            lemma_entry_lt_strict_total(x, x);
        }
    }
}

proof fn lemma_views_multiset(s1: Seq<(String, String)>, s2: Seq<(String, String)>)
    requires
        s1.to_multiset() == s2.to_multiset(),
    ensures
        context_views(s1).to_multiset() == context_views(s2).to_multiset(),
    decreases s1.len(),
{
    broadcast use vstd::multiset::group_multiset_axioms;
    if s1.len() == 0 {
        assert(s1.to_multiset().len() == 0);
        assert(s2.to_multiset().len() == s2.len());
        assert(context_views(s1) =~= context_views(s2));
    } else {
        let a = s1[0];
        assert(s1.to_multiset().count(a) > 0);
        assert(s2.contains(a));
        let k = choose|k: int| 0 <= k < s2.len() && s2[k] == a;
        assert(s1.remove(0).to_multiset() == s1.to_multiset().remove(a));
        assert(s2.remove(k).to_multiset() == s2.to_multiset().remove(a));
        lemma_views_multiset(s1.remove(0), s2.remove(k));
        let v1 = context_views(s1);
        let v2 = context_views(s2);
        assert(context_views(s1.remove(0)) =~= v1.remove(0));
        assert(context_views(s2.remove(k)) =~= v2.remove(k));
        assert(v1.remove(0).to_multiset() == v1.to_multiset().remove(entry_view(a)));
        assert(v2.remove(k).to_multiset() == v2.to_multiset().remove(entry_view(a)));
        assert(v1.to_multiset().count(entry_view(a)) > 0);
        assert(v2.to_multiset().count(entry_view(a)) > 0);
        assert(v1.to_multiset() =~= v1.to_multiset().remove(entry_view(a)).insert(entry_view(a)));
        assert(v2.to_multiset() =~= v2.to_multiset().remove(entry_view(a)).insert(entry_view(a)));
    }
}

/// Law: the planner's context order depends only on which entries there are.
/// Two sorted arrangements of the same entries agree entry by entry, so a
/// directory walk in any order yields the same prompt.
pub proof fn law_context_order_is_canonical(s1: Seq<(String, String)>, s2: Seq<(String, String)>)
    requires
        context_sorted(s1),
        context_sorted(s2),
        s1.to_multiset() == s2.to_multiset(),
    ensures
        context_views(s1) == context_views(s2),
{
    lemma_entry_le_total_ordering();
    lemma_views_multiset(s1, s2);
    let v1 = context_views(s1);
    let v2 = context_views(s2);
    assert(sorted_by(v1, entry_le())) by {
        assert forall|i: int, j: int| 0 <= i < j < v1.len() implies #[trigger] (entry_le())(v1[i], v1[j]) by {
            assert(!entry_lt(entry_view(s1[j]), entry_view(s1[i])));
        }
    }
    assert(sorted_by(v2, entry_le())) by {
        assert forall|i: int, j: int| 0 <= i < j < v2.len() implies #[trigger] (entry_le())(v2[i], v2[j]) by {
            assert(!entry_lt(entry_view(s2[j]), entry_view(s2[i])));
        }
    }
    vstd::seq_lib::lemma_sorted_unique(v1, v2, entry_le());
}

/// Whether text `a` sorts strictly before text `b`.
pub fn text_less(a: &str, b: &str) -> (r: bool)
    ensures
        r == text_lt(a@, b@),
{
    let v = chars_of(a);
    let w = chars_of(b);
    let mut i: usize = 0;
    while i < v.len() && i < w.len() && v[i] == w[i]
        invariant
            v@ == a@,
            w@ == b@,
            i <= v@.len(),
            i <= w@.len(),
            text_lt(a@, b@) == text_lt_from(a@, b@, i as int),
        decreases v@.len() - i,
    {
        i = i + 1;
    }
    if i >= v.len() {
        i < w.len()
    } else if i >= w.len() {
        false
    } else {
        v[i] < w[i]
    }
}

/// Whether entry `x` sorts strictly before entry `y`.
pub fn entry_less(x: &(String, String), y: &(String, String)) -> (r: bool)
    ensures
        r == entry_lt(entry_view(*x), entry_view(*y)),
{
    if text_less(x.0.as_str(), y.0.as_str()) {
        true
    } else if text_eq(x.0.as_str(), y.0.as_str()) {
        text_less(x.1.as_str(), y.1.as_str())
    } else {
        false
    }
}

/// Where `x` goes in the sorted `out`: before the first entry it sorts before.
fn insertion_point(out: &Vec<(String, String)>, x: &(String, String)) -> (p: usize)
    ensures
        p <= out@.len(),
        forall|j: int| 0 <= j < p ==> !entry_lt(entry_view(*x), entry_view(#[trigger] out@[j])),
        p < out@.len() ==> entry_lt(entry_view(*x), entry_view(out@[p as int])),
{
    let mut p: usize = 0;
    while p < out.len()
        invariant
            p <= out@.len(),
            forall|j: int| 0 <= j < p ==> !entry_lt(entry_view(*x), entry_view(#[trigger] out@[j])),
        decreases out@.len() - p,
    {
        if entry_less(x, &out[p]) {
            return p;
        }
        p = p + 1;
    }
    p
}

/// The planner's context in its fixed order: the same entries, sorted by
/// path and then content.
pub fn sort_context(files: Vec<(String, String)>) -> (out: Vec<(String, String)>)
    ensures
        out@.to_multiset() == files@.to_multiset(),
        context_sorted(out@),
{
    let mut rest = files;
    let mut out: Vec<(String, String)> = Vec::new();
    while rest.len() > 0
        invariant
            context_sorted(out@),
            out@.to_multiset().add(rest@.to_multiset()) == files@.to_multiset(),
        decreases rest@.len(),
    {
        let ghost before_rest = rest@;
        let ghost before_out = out@;
        let x = rest.pop().unwrap();
        assert(before_rest =~= rest@.push(x));
        let p = insertion_point(&out, &x);
        out.insert(p, x);
        proof {
            assert(out@.remove(p as int) =~= before_out);
            assert(out@[p as int] == x);
            assert(out@.to_multiset() =~= before_out.to_multiset().insert(x));
            assert(before_rest.to_multiset() =~= rest@.to_multiset().insert(x));
            assert forall|i: int, j: int| 0 <= i < j < out@.len() implies
                !entry_lt(entry_view(#[trigger] out@[j]), entry_view(#[trigger] out@[i])) by {
                let ex = entry_view(x);
                if i < p && j == p {
                    assert(out@[i] == before_out[i]);
                } else if i == p && j > p {
                    assert(out@[j] == before_out[j - 1]);
                    if p < before_out.len() && entry_lt(entry_view(before_out[j - 1]), ex) {
                        assert(entry_lt(ex, entry_view(before_out[p as int])));
                        lemma_entry_lt_transitive(entry_view(before_out[j - 1]), ex, entry_view(before_out[p as int]));
                        if j - 1 > p {
                            assert(!entry_lt(entry_view(before_out[j - 1]), entry_view(before_out[p as int])));
                        } else {
                            lemma_text_lt_strict_total(before_out[p as int].0@, before_out[p as int].0@);
                            lemma_text_lt_strict_total(before_out[p as int].1@, before_out[p as int].1@);
                        }
                    }
                } else if i < p && j > p {
                    assert(out@[i] == before_out[i]);
                    assert(out@[j] == before_out[j - 1]);
                } else if j < p {
                    assert(out@[i] == before_out[i]);
                    assert(out@[j] == before_out[j]);
                } else {
                    assert(out@[i] == before_out[i - 1]);
                    assert(out@[j] == before_out[j - 1]);
                }
            }
        }
    }
    out
}

} // verus!
