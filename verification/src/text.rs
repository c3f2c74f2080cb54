//! Text as sequences of characters: the small vocabulary of string operations
//! that the rest of the shell is stated in, each with its mathematical meaning.

use vstd::prelude::*;

verus! {

/// `String::push` of the standard library: the character is appended and
/// nothing else changes.
pub assume_specification[ String::push ](s: &mut String, c: char)
    ensures
        final(s)@ == old(s)@.push(c),
;

/// The characters of a string slice, in order.
pub fn chars_of(s: &str) -> (v: Vec<char>)
    ensures
        v@ == s@,
{
    let mut v: Vec<char> = Vec::new();
    for c in it: s.chars()
        invariant
            it.seq() == s@,
            v@ == it.seq().take(it.index() as int),
    {
        v.push(c);
    }
    v
}

/// The string made of the characters `cs[lo..hi]`.
pub fn string_of_range(cs: &Vec<char>, lo: usize, hi: usize) -> (s: String)
    requires
        lo <= hi <= cs.len(),
    ensures
        s@ == cs@.subrange(lo as int, hi as int),
{
    let mut s = String::new();
    let mut i: usize = lo;
    while i < hi
        invariant
            lo <= i <= hi <= cs.len(),
            s@ == cs@.subrange(lo as int, i as int),
        decreases hi - i,
    {
        s.push(cs[i]);
        i += 1;
    }
    s
}

/// The string made of the characters of `cs`.
pub fn string_of(cs: &Vec<char>) -> (s: String)
    ensures
        s@ == cs@,
{
    let s = string_of_range(cs, 0, cs.len());
    assert(cs@.subrange(0, cs.len() as int) == cs@);
    s
}

/// Whether two string slices hold the same characters.
pub fn text_eq(a: &str, b: &str) -> (r: bool)
    ensures
        r == (a@ == b@),
{
    let x = chars_of(a);
    let y = chars_of(b);
    if x.len() != y.len() {
        return false;
    }
    let mut i: usize = 0;
    while i < x.len()
        invariant
            x@ == a@,
            y@ == b@,
            x.len() == y.len(),
            i <= x.len(),
            forall|j: int| 0 <= j < i ==> x@[j] == y@[j],
        decreases x.len() - i,
    {
        if x[i] != y[i] {
            assert(x@[i as int] != y@[i as int]);
            return false;
        }
        i += 1;
    }
    assert(x@ =~= y@);
    true
}

// ---------------------------------------------------------------------------
// White space and trimming
// ---------------------------------------------------------------------------

/// The characters that Unicode gives the property `White_Space`.
pub open spec fn is_space(c: char) -> bool {
    let n = c as u32;
    ||| 0x09 <= n <= 0x0d
    ||| n == 0x20
    ||| n == 0x85
    ||| n == 0xa0
    ||| n == 0x1680
    ||| 0x2000 <= n <= 0x200a
    ||| n == 0x2028
    ||| n == 0x2029
    ||| n == 0x202f
    ||| n == 0x205f
    ||| n == 0x3000
}

/// Whether a character is white space.
pub fn char_is_space(c: char) -> (r: bool)
    ensures
        r == is_space(c),
{
    let n: u32 = c as u32;
    (0x09 <= n && n <= 0x0d) || n == 0x20 || n == 0x85 || n == 0xa0 || n == 0x1680 || (0x2000 <= n
        && n <= 0x200a) || n == 0x2028 || n == 0x2029 || n == 0x202f || n == 0x205f || n == 0x3000
}

/// The first position at or after `from` that holds no white space.
pub open spec fn trim_start(s: Seq<char>, from: int) -> int
    decreases s.len() - from,
{
    if 0 <= from < s.len() && is_space(s[from]) {
        trim_start(s, from + 1)
    } else {
        from
    }
}

/// The end of the text that is left of `s[lo..to]` once the white space at its
/// end is taken away.
pub open spec fn trim_end(s: Seq<char>, lo: int, to: int) -> int
    decreases to,
{
    if lo < to <= s.len() && 0 <= lo && is_space(s[to - 1]) {
        trim_end(s, lo, to - 1)
    } else {
        to
    }
}

/// `s` without the white space at its two ends.
pub open spec fn trimmed(s: Seq<char>) -> Seq<char> {
    let lo = trim_start(s, 0);
    s.subrange(lo, trim_end(s, lo, s.len() as int))
}

/// The text without the white space at its two ends.
pub fn trim(s: &str) -> (r: String)
    ensures
        r@ == trimmed(s@),
{
    let cs = chars_of(s);
    let mut lo: usize = 0;
    while lo < cs.len() && char_is_space(cs[lo])
        invariant
            lo <= cs.len(),
            trim_start(cs@, lo as int) == trim_start(cs@, 0),
        decreases cs.len() - lo,
    {
        lo += 1;
    }
    let mut hi: usize = cs.len();
    while lo < hi && char_is_space(cs[hi - 1])
        invariant
            lo <= hi <= cs.len(),
            trim_end(cs@, lo as int, hi as int) == trim_end(cs@, lo as int, cs.len() as int),
        decreases hi,
    {
        hi -= 1;
    }
    string_of_range(&cs, lo, hi)
}

// ---------------------------------------------------------------------------
// Joining
// ---------------------------------------------------------------------------

/// The parts written one after another with `sep` between neighbours.
pub open spec fn joined(parts: Seq<Seq<char>>, sep: Seq<char>) -> Seq<char>
    decreases parts.len(),
{
    if parts.len() == 0 {
        Seq::empty()
    } else if parts.len() == 1 {
        parts[0]
    } else {
        joined(parts.drop_last(), sep) + sep + parts.last()
    }
}

/// The parts written one after another with `sep` between neighbours.
pub fn join(parts: &Vec<String>, sep: &str) -> (r: String)
    ensures
        r@ == joined(parts.deep_view(), sep@),
{
    let mut out: Vec<char> = Vec::new();
    let seps = chars_of(sep);
    let ghost texts = parts.deep_view();
    let mut i: usize = 0;
    while i < parts.len()
        invariant
            i <= parts.len(),
            texts == parts.deep_view(),
            seps@ == sep@,
            out@ == joined(texts.take(i as int), sep@),
        decreases parts.len() - i,
    {
        let ghost before = out@;
        if i > 0 {
            append_chars(&mut out, &seps);
        }
        let piece = chars_of(parts[i].as_str());
        append_chars(&mut out, &piece);
        proof {
            let upto = texts.take(i + 1);
            assert(upto.drop_last() == texts.take(i as int));
            assert(upto.last() == parts[i as int]@);
            if i == 0 {
                assert(before == Seq::<char>::empty());
                assert(out@ == piece@);
            }
        }
        i += 1;
    }
    assert(texts.take(parts.len() as int) == texts);
    string_of(&out)
}

/// Appends the characters of `more` to `out`.
pub fn append_chars(out: &mut Vec<char>, more: &Vec<char>)
    ensures
        final(out)@ == old(out)@ + more@,
{
    let mut i: usize = 0;
    while i < more.len()
        invariant
            i <= more.len(),
            out@ == old(out)@ + more@.take(i as int),
        decreases more.len() - i,
    {
        out.push(more[i]);
        assert(more@.take(i + 1) == more@.take(i as int).push(more@[i as int]));
        i += 1;
    }
    assert(more@.take(more.len() as int) == more@);
}

/// Appends the characters of `more` to `out`.
pub fn append_str(out: &mut Vec<char>, more: &str)
    ensures
        final(out)@ == old(out)@ + more@,
{
    let cs = chars_of(more);
    append_chars(out, &cs);
}

// ---------------------------------------------------------------------------
// Prefixes
// ---------------------------------------------------------------------------

/// Whether `s` begins with `prefix`.
pub fn starts_with(s: &str, prefix: &str) -> (r: bool)
    ensures
        r == prefix@.is_prefix_of(s@),
{
    let x = chars_of(s);
    let p = chars_of(prefix);
    chars_start_with(&x, &p)
}

/// Whether the characters `x` begin with the characters `p`.
pub fn chars_start_with(x: &Vec<char>, p: &Vec<char>) -> (r: bool)
    ensures
        r == p@.is_prefix_of(x@),
{
    if p.len() > x.len() {
        return false;
    }
    let mut i: usize = 0;
    while i < p.len()
        invariant
            p.len() <= x.len(),
            i <= p.len(),
            forall|j: int| 0 <= j < i ==> x@[j] == p@[j],
        decreases p.len() - i,
    {
        if x[i] != p[i] {
            assert(x@.subrange(0, p.len() as int)[i as int] != p@[i as int]);
            return false;
        }
        i += 1;
    }
    assert(x@.subrange(0, p.len() as int) =~= p@);
    true
}

// ---------------------------------------------------------------------------
// Splitting
// ---------------------------------------------------------------------------

/// Whether `sep` stands in `s` at position `i`.
pub open spec fn occurs_at(s: Seq<char>, sep: Seq<char>, i: int) -> bool {
    0 <= i && i + sep.len() <= s.len() && s.subrange(i, i + sep.len()) == sep
}

/// The first position at or after `from` at which `sep` stands in `s`; -1 if
/// there is none.
pub open spec fn next_occurrence(s: Seq<char>, sep: Seq<char>, from: int) -> int
    decreases s.len() - from,
{
    if from < 0 || from + sep.len() > s.len() {
        -1
    } else if occurs_at(s, sep, from) || from >= s.len() {
        from
    } else {
        next_occurrence(s, sep, from + 1)
    }
}

/// The pieces of `s[from..]` between the places where `sep` stands, found
/// from left to right, each place behind the one before it.
pub open spec fn pieces_from(s: Seq<char>, sep: Seq<char>, from: int) -> Seq<Seq<char>>
    decreases s.len() - from,
{
    let at = next_occurrence(s, sep, from);
    if sep.len() > 0 && from <= at && at + sep.len() <= s.len() {
        seq![s.subrange(from, at)] + pieces_from(s, sep, at + sep.len())
    } else {
        seq![s.subrange(from, s.len() as int)]
    }
}

/// The pieces of `s` between the places where `sep` stands. A text in which
/// `sep` does not stand is one piece, and so is any text if `sep` is empty.
pub open spec fn pieces(s: Seq<char>, sep: Seq<char>) -> Seq<Seq<char>> {
    pieces_from(s, sep, 0)
}

fn stands_at(cs: &Vec<char>, ps: &Vec<char>, at: usize) -> (r: bool)
    requires
        at <= cs.len(),
        ps.len() <= cs.len() - at,
    ensures
        r == occurs_at(cs@, ps@, at as int),
{
    let mut i: usize = 0;
    while i < ps.len()
        invariant
            at <= cs.len(),
            ps.len() <= cs.len() - at,
            i <= ps.len(),
            forall|j: int| 0 <= j < i ==> cs@[at + j] == ps@[j],
        decreases ps.len() - i,
    {
        if cs[at + i] != ps[i] {
            assert(cs@.subrange(at as int, at + ps.len())[i as int] != ps@[i as int]);
            return false;
        }
        i += 1;
    }
    assert(cs@.subrange(at as int, at + ps.len()) =~= ps@);
    true
}

/// The pieces of `s` between the places where `sep` stands.
pub fn split(s: &str, sep: &str) -> (r: Vec<String>)
    ensures
        r.deep_view() == pieces(s@, sep@),
        r.len() >= 1,
{
    let cs = chars_of(s);
    let ps = chars_of(sep);
    let mut out: Vec<String> = Vec::new();
    if ps.len() == 0 {
        out.push(string_of(&cs));
        assert(cs@.subrange(0, cs.len() as int) =~= cs@);
        assert(out.deep_view() =~= pieces(s@, sep@));
        return out;
    }
    let mut from: usize = 0;
    let mut done = false;
    assert(out.deep_view() + pieces_from(cs@, ps@, 0) =~= pieces(cs@, ps@));
    while !done
        invariant
            from <= cs.len(),
            ps.len() > 0,
            cs@ == s@,
            ps@ == sep@,
            !done ==> out.deep_view() + pieces_from(cs@, ps@, from as int) == pieces(cs@, ps@),
            done ==> out.deep_view() == pieces(cs@, ps@),
            done ==> out.len() >= 1,
        decreases cs.len() - from + (if done { 0int } else { 1int }),
    {
        let mut at: usize = from;
        let mut found = false;
        while !found && ps.len() <= cs.len() - at
            invariant
                from <= at <= cs.len(),
                ps.len() > 0,
                found ==> occurs_at(cs@, ps@, at as int),
                next_occurrence(cs@, ps@, at as int) == next_occurrence(cs@, ps@, from as int),
            decreases cs.len() - at + (if found { 0int } else { 1int }),
        {
            if stands_at(&cs, &ps, at) {
                found = true;
            } else {
                at += 1;
            }
        }
        let ghost before = out.deep_view();
        let ghost rest = pieces_from(cs@, ps@, from as int);
        if found {
            let piece = string_of_range(&cs, from, at);
            out.push(piece);
            assert(out.deep_view() =~= before.push(piece@));
            assert(before.push(piece@) + pieces_from(cs@, ps@, at + ps.len()) =~= before + rest);
            from = at + ps.len();
        } else {
            let piece = string_of_range(&cs, from, cs.len());
            out.push(piece);
            assert(out.deep_view() =~= before.push(piece@));
            assert(before.push(piece@) =~= before + rest);
            done = true;
        }
    }
    out
}

// ---------------------------------------------------------------------------
// Lists of strings
// ---------------------------------------------------------------------------

/// A copy of the strings `v[lo..hi]`.
pub fn copy_strings(v: &Vec<String>, lo: usize, hi: usize) -> (r: Vec<String>)
    requires
        lo <= hi <= v.len(),
    ensures
        r.deep_view() == v.deep_view().subrange(lo as int, hi as int),
{
    let mut r: Vec<String> = Vec::new();
    let mut i: usize = lo;
    while i < hi
        invariant
            lo <= i <= hi <= v.len(),
            r.len() == i - lo,
            forall|j: int| 0 <= j < r.len() ==> r@[j]@ == v@[lo + j]@,
        decreases hi - i,
    {
        r.push(v[i].clone());
        i += 1;
    }
    assert(r.deep_view() =~= v.deep_view().subrange(lo as int, hi as int));
    r
}

} // verus!
