//! The longest common prefix of a list of strings.

use vstd::prelude::*;
use crate::order::agree_upto;
use crate::order::lemma_between_shares_prefix;
use crate::order::lemma_ordered_sorts;
use crate::order::lex_le;
use crate::order::ordered;
use crate::order::sort_strings;
use crate::text::chars_of;
use crate::text::string_of_range;

verus! {

/// Whether every string of the list begins with `p`.
pub open spec fn common_prefix(p: Seq<char>, names: Seq<Seq<char>>) -> bool {
    forall|i: int| 0 <= i < names.len() ==> p.is_prefix_of(#[trigger] names[i])
}

/// Whether `p` is the longest text that every string of the list begins with.
pub open spec fn longest_common_prefix(p: Seq<char>, names: Seq<Seq<char>>) -> bool {
    &&& common_prefix(p, names)
    &&& forall|q: Seq<char>| #[trigger] common_prefix(q, names) ==> q.len() <= p.len()
}

/// The first position at or after `i` at which `a` and `b` differ or one of
/// them ends.
pub open spec fn shared_len(a: Seq<char>, b: Seq<char>, i: int) -> int
    decreases a.len() - i,
{
    if 0 <= i < a.len() && i < b.len() && a[i] == b[i] {
        shared_len(a, b, i + 1)
    } else {
        i
    }
}

/// The longest common prefix of a list, as it is computed: what the first and
/// the last string of the sorted list share at the start. The empty text for
/// the empty list.
pub open spec fn lcp_of(names: Seq<Seq<char>>) -> Seq<char> {
    if names.len() == 0 {
        Seq::empty()
    } else {
        let sorted = ordered(names);
        sorted.first().take(shared_len(sorted.first(), sorted.last(), 0))
    }
}

proof fn lemma_shared_len(a: Seq<char>, b: Seq<char>, i: int)
    requires
        0 <= i,
        agree_upto(a, b, i),
    ensures
        i <= shared_len(a, b, i),
        agree_upto(a, b, shared_len(a, b, i)),
        shared_len(a, b, i) == a.len() || shared_len(a, b, i) == b.len() || a[shared_len(a, b, i)]
            != b[shared_len(a, b, i)],
    decreases a.len() - i,
{
    if i < a.len() && i < b.len() && a[i] == b[i] {
        lemma_shared_len(a, b, i + 1);
    }
}

/// What is computed for a list that is not empty is its longest common
/// prefix: every string of the list begins with it, and with nothing longer.
pub proof fn lemma_lcp_is_longest(names: Seq<Seq<char>>)
    requires
        names.len() > 0,
    ensures
        longest_common_prefix(lcp_of(names), names),
{
    let sorted = ordered(names);
    lemma_ordered_sorts(names);
    let a = sorted.first();
    let b = sorted.last();
    let k = shared_len(a, b, 0);
    lemma_shared_len(a, b, 0);
    let p = lcp_of(names);
    assert(sorted.contains(a)) by {
        assert(sorted[0] == a);
    }
    assert(sorted.contains(b)) by {
        assert(sorted[sorted.len() - 1] == b);
    }
    assert forall|i: int| 0 <= i < names.len() implies p.is_prefix_of(#[trigger] names[i]) by {
        let s = names[i];
        assert(names.contains(s));
        assert(sorted.contains(s));
        let t = choose|t: int| 0 <= t < sorted.len() && sorted[t] == s;
        assert(lex_le(sorted[0], sorted[t]));
        assert(lex_le(sorted[t], sorted[sorted.len() - 1]));
        lemma_between_shares_prefix(a, s, b, k);
        assert(p =~= s.subrange(0, k));
    }
    assert forall|q: Seq<char>| #[trigger] common_prefix(q, names) implies q.len() <= p.len() by {
        assert(names.contains(a));
        assert(names.contains(b));
        let ia = choose|t: int| 0 <= t < names.len() && names[t] == a;
        let ib = choose|t: int| 0 <= t < names.len() && names[t] == b;
        assert(q.is_prefix_of(names[ia]));
        assert(q.is_prefix_of(names[ib]));
        if q.len() > k {
            assert(a.subrange(0, q.len() as int)[k] == q[k]);
            assert(b.subrange(0, q.len() as int)[k] == q[k]);
        }
    }
}

/// The longest common prefix of the strings: the longest text that each of
/// them begins with. The empty text for an empty list.
pub fn lcp(strings: Vec<String>) -> (r: String)
    ensures
        r@ == lcp_of(strings.deep_view()),
        strings.len() == 0 ==> r@.len() == 0,
        strings.len() > 0 ==> longest_common_prefix(r@, strings.deep_view()),
{
    if strings.len() == 0 {
        return String::new();
    }
    let sorted = sort_strings(&strings);
    proof {
        lemma_ordered_sorts(strings.deep_view());
        lemma_lcp_is_longest(strings.deep_view());
    }
    let first = chars_of(sorted[0].as_str());
    let last = chars_of(sorted[sorted.len() - 1].as_str());
    assert(first@ == sorted.deep_view().first());
    assert(last@ == sorted.deep_view().last());
    let mut n: usize = 0;
    while n < first.len() && n < last.len() && first[n] == last[n]
        invariant
            n <= first.len(),
            n <= last.len(),
            shared_len(first@, last@, n as int) == shared_len(first@, last@, 0),
        decreases first.len() - n,
    {
        n += 1;
    }
    string_of_range(&first, 0, n)
}

} // verus!
