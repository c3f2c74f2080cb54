//! The order of strings: character by character, by code point, a proper
//! prefix before what it is a prefix of. Sorting by that order.

use vstd::prelude::*;
use crate::text::chars_of;

verus! {

/// Whether `a[i..]` comes no later than `b[i..]`.
pub open spec fn lex_le_from(a: Seq<char>, b: Seq<char>, i: int) -> bool
    decreases a.len() - i,
{
    if i < 0 || i >= a.len() {
        true
    } else if i >= b.len() {
        false
    } else if a[i] != b[i] {
        (a[i] as u32) < (b[i] as u32)
    } else {
        lex_le_from(a, b, i + 1)
    }
}

/// Whether `a` comes no later than `b`.
pub open spec fn lex_le(a: Seq<char>, b: Seq<char>) -> bool {
    lex_le_from(a, b, 0)
}

/// Whether `a` and `b` hold the same characters at all positions before `n`.
pub open spec fn agree_upto(a: Seq<char>, b: Seq<char>, n: int) -> bool {
    &&& n <= a.len()
    &&& n <= b.len()
    &&& forall|j: int| 0 <= j < n ==> a[j] == b[j]
}

/// Where two strings agree at the start, the order is decided behind it.
pub proof fn lemma_lex_le_skip(a: Seq<char>, b: Seq<char>, n: int)
    requires
        0 <= n,
        agree_upto(a, b, n),
    ensures
        lex_le(a, b) == lex_le_from(a, b, n),
    decreases n,
{
    if n > 0 {
        lemma_lex_le_skip(a, b, n - 1);
    }
}

proof fn lemma_code_points_differ(c: char, d: char)
    requires
        c != d,
    ensures
        c as u32 != d as u32,
{
}

/// Every string comes no later than itself.
pub proof fn lemma_lex_le_reflexive(a: Seq<char>)
    ensures
        lex_le(a, a),
{
    lemma_lex_le_from_same(a, 0);
}

proof fn lemma_lex_le_from_same(a: Seq<char>, i: int)
    requires
        0 <= i,
    ensures
        lex_le_from(a, a, i),
    decreases a.len() - i,
{
    if i < a.len() {
        lemma_lex_le_from_same(a, i + 1);
    }
}

/// Of two strings one comes no later than the other.
pub proof fn lemma_lex_le_total(a: Seq<char>, b: Seq<char>)
    ensures
        lex_le(a, b) || lex_le(b, a),
{
    lemma_lex_le_from_total(a, b, 0);
}

proof fn lemma_lex_le_from_total(a: Seq<char>, b: Seq<char>, i: int)
    requires
        0 <= i,
    ensures
        lex_le_from(a, b, i) || lex_le_from(b, a, i),
    decreases a.len() - i,
{
    if i < a.len() && i < b.len() {
        if a[i] == b[i] {
            lemma_lex_le_from_total(a, b, i + 1);
        } else {
            lemma_code_points_differ(a[i], b[i]);
        }
    }
}

/// The order is transitive.
pub proof fn lemma_lex_le_transitive(a: Seq<char>, b: Seq<char>, c: Seq<char>)
    requires
        lex_le(a, b),
        lex_le(b, c),
    ensures
        lex_le(a, c),
{
    lemma_lex_le_from_transitive(a, b, c, 0);
}

proof fn lemma_lex_le_from_transitive(a: Seq<char>, b: Seq<char>, c: Seq<char>, i: int)
    requires
        0 <= i,
        lex_le_from(a, b, i),
        lex_le_from(b, c, i),
    ensures
        lex_le_from(a, c, i),
    decreases a.len() - i,
{
    if i < a.len() && i < b.len() && i < c.len() && a[i] == b[i] && b[i] == c[i] {
        lemma_lex_le_from_transitive(a, b, c, i + 1);
    }
}

/// What two strings share at the start, every string between them shares too.
pub proof fn lemma_between_shares_prefix(a: Seq<char>, s: Seq<char>, b: Seq<char>, n: int)
    requires
        0 <= n,
        agree_upto(a, b, n),
        lex_le(a, s),
        lex_le(s, b),
    ensures
        agree_upto(a, s, n),
    decreases n,
{
    if n > 0 {
        lemma_between_shares_prefix(a, s, b, n - 1);
        lemma_lex_le_skip(a, s, n - 1);
        if n - 1 < s.len() {
            assert forall|j: int| 0 <= j < n - 1 implies s[j] == b[j] by {
                assert(a[j] == s[j]);
                assert(a[j] == b[j]);
            }
            lemma_lex_le_skip(s, b, n - 1);
        }
    }
}

/// Whether `a` comes no later than `b`.
pub fn chars_le(a: &Vec<char>, b: &Vec<char>) -> (r: bool)
    ensures
        r == lex_le(a@, b@),
{
    let mut i: usize = 0;
    while i < a.len() && i < b.len()
        invariant
            i <= a.len(),
            i <= b.len(),
            lex_le_from(a@, b@, i as int) == lex_le(a@, b@),
        decreases a.len() - i,
    {
        if a[i] != b[i] {
            return (a[i] as u32) < (b[i] as u32);
        }
        i += 1;
    }
    i >= a.len()
}

/// Whether `a` comes no later than `b`.
pub fn str_le(a: &str, b: &str) -> (r: bool)
    ensures
        r == lex_le(a@, b@),
{
    let x = chars_of(a);
    let y = chars_of(b);
    chars_le(&x, &y)
}

// ---------------------------------------------------------------------------
// Sorting
// ---------------------------------------------------------------------------

/// Whether every string of the list comes no later than those behind it.
pub open spec fn ascending(s: Seq<Seq<char>>) -> bool {
    forall|i: int, j: int| 0 <= i <= j < s.len() ==> lex_le(#[trigger] s[i], #[trigger] s[j])
}

/// An ascending list with `x` put in, behind the strings that come no later.
pub open spec fn insert_ordered(s: Seq<Seq<char>>, x: Seq<char>) -> Seq<Seq<char>>
    decreases s.len(),
{
    if s.len() > 0 && !lex_le(s.last(), x) {
        insert_ordered(s.drop_last(), x).push(s.last())
    } else {
        s.push(x)
    }
}

/// The strings of the list in ascending order.
pub open spec fn ordered(s: Seq<Seq<char>>) -> Seq<Seq<char>>
    decreases s.len(),
{
    if s.len() == 0 {
        s
    } else {
        insert_ordered(ordered(s.drop_last()), s.last())
    }
}

/// Putting a string into a list adds it to what the list holds.
pub proof fn lemma_insert_ordered_holds(s: Seq<Seq<char>>, x: Seq<char>)
    ensures
        insert_ordered(s, x).len() == s.len() + 1,
        insert_ordered(s, x).to_multiset() == s.to_multiset().insert(x),
    decreases s.len(),
{
    broadcast use vstd::seq_lib::group_to_multiset_ensures;

    if s.len() > 0 && !lex_le(s.last(), x) {
        lemma_insert_ordered_holds(s.drop_last(), x);
        assert(s.drop_last().push(s.last()) == s);
        assert(insert_ordered(s, x).to_multiset() =~= s.to_multiset().insert(x));
    }
}

/// Putting a string into an ascending list leaves the list ascending.
pub proof fn lemma_insert_ordered_ascending(s: Seq<Seq<char>>, x: Seq<char>)
    requires
        ascending(s),
    ensures
        ascending(insert_ordered(s, x)),
        forall|i: int|
            0 <= i < insert_ordered(s, x).len() ==> #[trigger] insert_ordered(s, x)[i] == x || s.contains(
                insert_ordered(s, x)[i],
            ),
    decreases s.len(),
{
    let t = insert_ordered(s, x);
    if s.len() > 0 && !lex_le(s.last(), x) {
        let head = s.drop_last();
        let inner = insert_ordered(head, x);
        assert forall|i: int, j: int| 0 <= i <= j < head.len() implies lex_le(
            #[trigger] head[i],
            #[trigger] head[j],
        ) by {
            assert(head[i] == s[i]);
            assert(head[j] == s[j]);
        }
        lemma_insert_ordered_ascending(head, x);
        lemma_insert_ordered_holds(head, x);
        lemma_lex_le_total(s.last(), x);
        assert forall|i: int| 0 <= i < t.len() implies #[trigger] t[i] == x || s.contains(t[i]) by {
            if i < inner.len() {
                assert(t[i] == inner[i]);
                if inner[i] != x {
                    assert(head.contains(inner[i]));
                    let k = choose|k: int| 0 <= k < head.len() && head[k] == inner[i];
                    assert(s[k] == inner[i]);
                }
            } else {
                assert(t[i] == s[s.len() - 1]);
            }
        }
        assert forall|i: int, j: int| 0 <= i <= j < t.len() implies lex_le(
            #[trigger] t[i],
            #[trigger] t[j],
        ) by {
            if j < inner.len() {
                assert(t[i] == inner[i]);
                assert(t[j] == inner[j]);
            } else if i < inner.len() {
                assert(t[i] == inner[i]);
                assert(t[j] == s.last());
                if inner[i] == x {
                } else {
                    assert(head.contains(inner[i]));
                    let k = choose|k: int| 0 <= k < head.len() && head[k] == inner[i];
                    assert(lex_le(s[k], s[s.len() - 1]));
                }
            } else {
                lemma_lex_le_reflexive(s.last());
            }
        }
    } else {
        assert forall|i: int| 0 <= i < t.len() implies #[trigger] t[i] == x || s.contains(t[i]) by {
            if i < s.len() {
                assert(t[i] == s[i]);
            }
        }
        assert forall|i: int, j: int| 0 <= i <= j < t.len() implies lex_le(
            #[trigger] t[i],
            #[trigger] t[j],
        ) by {
            if j < s.len() {
                assert(t[i] == s[i]);
                assert(t[j] == s[j]);
            } else if i < s.len() {
                assert(t[i] == s[i]);
                assert(lex_le(s[i], s[s.len() - 1]));
                lemma_lex_le_transitive(s[i], s.last(), x);
            } else {
                lemma_lex_le_reflexive(x);
            }
        }
    }
}

/// The sorted list is ascending and holds what the list holds, each string
/// as often.
pub proof fn lemma_ordered_sorts(s: Seq<Seq<char>>)
    ensures
        ascending(ordered(s)),
        ordered(s).len() == s.len(),
        ordered(s).to_multiset() == s.to_multiset(),
        forall|x: Seq<char>| s.contains(x) <==> ordered(s).contains(x),
    decreases s.len(),
{
    broadcast use vstd::seq_lib::group_to_multiset_ensures;

    if s.len() > 0 {
        let head = s.drop_last();
        lemma_ordered_sorts(head);
        lemma_insert_ordered_ascending(ordered(head), s.last());
        lemma_insert_ordered_holds(ordered(head), s.last());
        assert(head.push(s.last()) == s);
        assert(ordered(s).to_multiset() =~= s.to_multiset());
    }
    assert forall|x: Seq<char>| s.contains(x) <==> ordered(s).contains(x) by {
        assert(s.contains(x) <==> s.to_multiset().count(x) > 0);
        assert(ordered(s).contains(x) <==> ordered(s).to_multiset().count(x) > 0);
    }
}

/// An ascending list into which `x` goes at position `p`: the strings before
/// `p` come no later than `x`, the others come later.
proof fn lemma_insert_position(s: Seq<Seq<char>>, x: Seq<char>, p: int)
    requires
        0 <= p <= s.len(),
        p > 0 ==> lex_le(s[p - 1], x),
        forall|j: int| p <= j < s.len() ==> !lex_le(#[trigger] s[j], x),
    ensures
        insert_ordered(s, x) == s.insert(p, x),
    decreases s.len() - p,
{
    if p < s.len() {
        let head = s.drop_last();
        assert(!lex_le(s[s.len() - 1], x));
        assert forall|j: int| p <= j < head.len() implies !lex_le(#[trigger] head[j], x) by {
            assert(head[j] == s[j]);
        }
        if p > 0 {
            assert(head[p - 1] == s[p - 1]);
        }
        lemma_insert_position(head, x, p);
        assert(head.insert(p, x).push(s.last()) =~= s.insert(p, x));
    } else {
        assert(s.push(x) =~= s.insert(p, x));
    }
}

/// Puts `x` into an ascending list.
fn insert_sorted(r: &mut Vec<String>, x: String)
    ensures
        final(r).deep_view() == insert_ordered(old(r).deep_view(), x@),
{
    let key = chars_of(x.as_str());
    let mut p: usize = r.len();
    let mut placed = false;
    while p > 0 && !placed
        invariant
            p <= r.len(),
            r == old(r),
            key@ == x@,
            placed ==> p > 0 && lex_le(r.deep_view()[p - 1], x@),
            forall|j: int| p <= j < r.len() ==> !lex_le(#[trigger] r.deep_view()[j], x@),
        decreases p + (if placed { 0int } else { 1int }),
    {
        let other = chars_of(r[p - 1].as_str());
        assert(r.deep_view()[p - 1] == other@);
        if chars_le(&other, &key) {
            placed = true;
        } else {
            p -= 1;
        }
    }
    proof {
        lemma_insert_position(r.deep_view(), x@, p as int);
    }
    r.insert(p, x);
    assert(r.deep_view() =~= old(r).deep_view().insert(p as int, x@));
}

/// The strings of a list in ascending order.
pub fn sort_strings(v: &Vec<String>) -> (r: Vec<String>)
    ensures
        r.deep_view() == ordered(v.deep_view()),
        ascending(r.deep_view()),
        r.deep_view().to_multiset() == v.deep_view().to_multiset(),
{
    let mut r: Vec<String> = Vec::new();
    let mut i: usize = 0;
    assert(v.deep_view().take(0) =~= Seq::<Seq<char>>::empty());
    assert(r.deep_view() =~= Seq::<Seq<char>>::empty());
    while i < v.len()
        invariant
            i <= v.len(),
            r.deep_view() == ordered(v.deep_view().take(i as int)),
        decreases v.len() - i,
    {
        insert_sorted(&mut r, v[i].clone());
        proof {
            let upto = v.deep_view().take(i + 1);
            assert(upto.drop_last() =~= v.deep_view().take(i as int));
            assert(upto.last() == v@[i as int]@);
        }
        i += 1;
    }
    proof {
        assert(v.deep_view().take(v.len() as int) =~= v.deep_view());
        lemma_ordered_sorts(v.deep_view());
    }
    r
}

} // verus!
