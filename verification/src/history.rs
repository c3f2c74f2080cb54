//! The log of submitted lines: how it is kept, listed, and written to and
//! read from a file of one line per entry.

use vstd::prelude::*;
use crate::number::decimal;
use crate::number::decimal_string;
use crate::text::append_str;
use crate::text::chars_of;
use crate::text::copy_strings;
use crate::text::join;
use crate::text::joined;
use crate::text::string_of;
use crate::text::string_of_range;
use crate::text::text_eq;

verus! {

// ---------------------------------------------------------------------------
// Lines of a text
// ---------------------------------------------------------------------------

/// The first position at or after `from` that holds a line feed; the length
/// of the text if there is none.
pub open spec fn line_end(s: Seq<char>, from: int) -> int
    decreases s.len() - from,
{
    if 0 <= from < s.len() && s[from] != '\n' {
        line_end(s, from + 1)
    } else {
        from
    }
}

/// A line without the carriage return at its end, if it has one.
pub open spec fn without_cr(line: Seq<char>) -> Seq<char> {
    if line.len() > 0 && line.last() == '\r' {
        line.drop_last()
    } else {
        line
    }
}

/// The lines of `s[from..]`. A line ends at a line feed, or at a carriage
/// return with a line feed behind it; a last line need not be ended, and
/// then keeps a carriage return at its end.
pub open spec fn lines_from(s: Seq<char>, from: int) -> Seq<Seq<char>>
    decreases s.len() - from,
{
    if from < 0 || from >= s.len() {
        Seq::empty()
    } else {
        let e = line_end(s, from);
        if from <= e < s.len() {
            seq![without_cr(s.subrange(from, e))] + lines_from(s, e + 1)
        } else {
            seq![s.subrange(from, s.len() as int)]
        }
    }
}

/// The lines of a text.
pub open spec fn lines_of(s: Seq<char>) -> Seq<Seq<char>> {
    lines_from(s, 0)
}

/// A line ends within the text, holds no line feed, and is followed by one
/// unless the text ends with it.
pub proof fn lemma_line_end(s: Seq<char>, from: int)
    requires
        0 <= from <= s.len(),
    ensures
        from <= line_end(s, from) <= s.len(),
        forall|j: int| from <= j < line_end(s, from) ==> s[j] != '\n',
        line_end(s, from) < s.len() ==> s[line_end(s, from)] == '\n',
    decreases s.len() - from,
{
    if from < s.len() && s[from] != '\n' {
        lemma_line_end(s, from + 1);
    }
}

proof fn lemma_line_end_is(s: Seq<char>, from: int, e: int)
    requires
        0 <= from <= e <= s.len(),
        forall|j: int| from <= j < e ==> s[j] != '\n',
        e < s.len() ==> s[e] == '\n',
    ensures
        line_end(s, from) == e,
    decreases e - from,
{
    if from < e {
        lemma_line_end_is(s, from + 1, e);
    }
}

/// The lines of a text.
pub fn parse_lines(content: &str) -> (lines: Vec<String>)
    ensures
        lines.deep_view() == lines_of(content@),
{
    let cs = chars_of(content);
    let mut out: Vec<String> = Vec::new();
    let mut from: usize = 0;
    assert(out.deep_view() + lines_from(cs@, 0) =~= lines_of(cs@));
    while from < cs.len()
        invariant
            from <= cs.len(),
            cs@ == content@,
            out.deep_view() + lines_from(cs@, from as int) == lines_of(cs@),
        decreases cs.len() - from,
    {
        let mut e: usize = from;
        while e < cs.len() && cs[e] != '\n'
            invariant
                from <= e <= cs.len(),
                line_end(cs@, e as int) == line_end(cs@, from as int),
            decreases cs.len() - e,
        {
            e += 1;
        }
        let ghost before = out.deep_view();
        let ghost rest = lines_from(cs@, from as int);
        if e < cs.len() {
            let hi: usize = if e > from && cs[e - 1] == '\r' {
                e - 1
            } else {
                e
            };
            let line = string_of_range(&cs, from, hi);
            assert(line@ =~= without_cr(cs@.subrange(from as int, e as int)));
            out.push(line);
            assert(out.deep_view() =~= before.push(line@));
            assert(before.push(line@) + lines_from(cs@, e + 1) =~= before + rest);
            from = e + 1;
        } else {
            let line = string_of_range(&cs, from, cs.len());
            out.push(line);
            assert(out.deep_view() =~= before.push(line@));
            assert(before.push(line@) + lines_from(cs@, cs.len() as int) =~= before + rest);
            from = cs.len();
        }
    }
    assert(out.deep_view() + lines_from(cs@, cs.len() as int) =~= out.deep_view());
    out
}

// ---------------------------------------------------------------------------
// The text of a history file
// ---------------------------------------------------------------------------

/// Entries as the text of a file: the entries with a line feed between
/// neighbours, and one line feed at the end.
pub open spec fn file_text(entries: Seq<Seq<char>>) -> Seq<char> {
    joined(entries, "\n"@) + "\n"@
}

/// Entries as the text of a file.
pub fn render_file(entries: &Vec<String>) -> (text: String)
    ensures
        text@ == file_text(entries.deep_view()),
{
    let body = join(entries, "\n");
    let mut out = chars_of(body.as_str());
    append_str(&mut out, "\n");
    string_of(&out)
}

/// Whether an entry comes back as it is from a file: it holds no line feed
/// and does not end in a carriage return.
pub open spec fn single_line(entry: Seq<char>) -> bool {
    &&& forall|j: int| 0 <= j < entry.len() ==> entry[j] != '\n'
    &&& without_cr(entry) == entry
}

/// Each entry followed by a line feed.
spec fn ended_lines(entries: Seq<Seq<char>>) -> Seq<char>
    decreases entries.len(),
{
    if entries.len() == 0 {
        Seq::empty()
    } else {
        ended_lines(entries.drop_last()) + entries.last() + "\n"@
    }
}

proof fn lemma_file_text_is_ended_lines(entries: Seq<Seq<char>>)
    requires
        entries.len() > 0,
    ensures
        file_text(entries) == ended_lines(entries),
    decreases entries.len(),
{
    if entries.len() == 1 {
        assert(ended_lines(entries.drop_last()) =~= Seq::<char>::empty());
        assert(file_text(entries) =~= ended_lines(entries));
    } else {
        lemma_file_text_is_ended_lines(entries.drop_last());
        assert(file_text(entries) =~= ended_lines(entries));
    }
}

proof fn lemma_ended_lines_end(entries: Seq<Seq<char>>)
    ensures
        ended_lines(entries).len() == 0 || ended_lines(entries).last() == '\n',
    decreases entries.len(),
{
    reveal_strlit("\n");
}

/// The lines of a text that ends in a line feed, with one more ended line
/// written behind it.
proof fn lemma_lines_of_extended(t: Seq<char>, line: Seq<char>, from: int)
    requires
        0 <= from <= t.len(),
        t.len() == 0 || t.last() == '\n',
        forall|j: int| 0 <= j < line.len() ==> line[j] != '\n',
    ensures
        lines_from(t + line + "\n"@, from) == lines_from(t, from) + seq![without_cr(line)],
    decreases t.len() - from,
{
    reveal_strlit("\n");
    let s = t + line + "\n"@;
    assert(s.len() == t.len() + line.len() + 1);
    if from == t.len() {
        let e: int = (t.len() + line.len()) as int;
        assert forall|j: int| from <= j < e implies s[j] != '\n' by {
            assert(s[j] == line[j - t.len()]);
        }
        assert(s[e] == '\n');
        lemma_line_end_is(s, from, e);
        assert(s.subrange(from, e) =~= line);
        assert(lines_from(s, e + 1) =~= Seq::<Seq<char>>::empty());
        assert(lines_from(t, from) =~= Seq::<Seq<char>>::empty());
        assert(lines_from(s, from) =~= lines_from(t, from) + seq![without_cr(line)]);
    } else {
        lemma_line_end(t, from);
        let e = line_end(t, from);
        assert(e < t.len()) by {
            assert(t[t.len() - 1] == '\n');
        }
        assert forall|j: int| from <= j < e implies s[j] != '\n' by {
            assert(s[j] == t[j]);
        }
        assert(s[e] == t[e]);
        lemma_line_end_is(s, from, e);
        assert(s.subrange(from, e) =~= t.subrange(from, e));
        lemma_lines_of_extended(t, line, e + 1);
        assert(lines_from(s, from) =~= lines_from(t, from) + seq![without_cr(line)]);
    }
}

proof fn lemma_lines_of_ended_lines(entries: Seq<Seq<char>>)
    requires
        forall|i: int| 0 <= i < entries.len() ==> single_line(#[trigger] entries[i]),
    ensures
        lines_of(ended_lines(entries)) == entries,
    decreases entries.len(),
{
    if entries.len() == 0 {
        assert(lines_of(ended_lines(entries)) =~= entries);
    } else {
        let head = entries.drop_last();
        assert forall|i: int| 0 <= i < head.len() implies single_line(#[trigger] head[i]) by {
            assert(head[i] == entries[i]);
        }
        lemma_lines_of_ended_lines(head);
        lemma_ended_lines_end(head);
        assert(single_line(entries[entries.len() - 1]));
        lemma_lines_of_extended(ended_lines(head), entries.last(), 0);
        assert(head + seq![entries.last()] =~= entries);
    }
}

/// What is written to a file comes back from it: the lines of the file text
/// of a log are the entries of the log. This holds of a log that is not empty
/// and whose entries are single lines; an empty log is written as one line
/// feed, which reads back as one empty entry.
pub proof fn lemma_file_text_reads_back(entries: Seq<Seq<char>>)
    requires
        entries.len() > 0,
        forall|i: int| 0 <= i < entries.len() ==> single_line(#[trigger] entries[i]),
    ensures
        lines_of(file_text(entries)) == entries,
{
    lemma_file_text_is_ended_lines(entries);
    lemma_lines_of_ended_lines(entries);
}

// ---------------------------------------------------------------------------
// The listing
// ---------------------------------------------------------------------------

/// One line of the listing: four spaces, the number of the entry counted
/// from one, a space, the entry, a line feed.
pub open spec fn entry_line(index: int, entry: Seq<char>) -> Seq<char> {
    "    "@ + decimal((index + 1) as nat) + " "@ + entry + "\n"@
}

/// The listing of the entries `from..to`.
pub open spec fn listing_text(entries: Seq<Seq<char>>, from: int, to: int) -> Seq<char>
    decreases to - from,
{
    if to <= from {
        Seq::empty()
    } else {
        listing_text(entries, from, to - 1) + entry_line(to - 1, entries[to - 1])
    }
}

/// The listing of the last `count` entries; of all of them where there are
/// no more than `count`.
pub open spec fn listing_of_last(entries: Seq<Seq<char>>, count: nat) -> Seq<char> {
    let from = if count >= entries.len() {
        0
    } else {
        entries.len() - count
    };
    listing_text(entries, from, entries.len() as int)
}

// ---------------------------------------------------------------------------
// What a request to append sends
// ---------------------------------------------------------------------------

/// The last position before `upto` that holds `line`; -1 if there is none.
pub open spec fn last_index_of(entries: Seq<Seq<char>>, line: Seq<char>, upto: int) -> int
    decreases upto,
{
    if upto <= 0 || upto > entries.len() {
        -1
    } else if entries[upto - 1] == line {
        upto - 1
    } else {
        last_index_of(entries, line, upto - 1)
    }
}

/// The line by which a request to append to `file` stands in the log.
pub open spec fn append_request(file: Seq<char>) -> Seq<char> {
    "history -a "@ + file
}

/// The entries that a request to append to `file` sends: those strictly
/// between the last two requests for that file that the log holds; the whole
/// log where it holds fewer than two.
pub open spec fn entries_to_append(entries: Seq<Seq<char>>, file: Seq<char>) -> Seq<Seq<char>> {
    let line = append_request(file);
    let last = last_index_of(entries, line, entries.len() as int);
    let prev = last_index_of(entries, line, last);
    if 0 <= prev < last {
        entries.subrange(prev + 1, last)
    } else {
        entries
    }
}

proof fn lemma_last_index_of(entries: Seq<Seq<char>>, line: Seq<char>, upto: int)
    requires
        upto <= entries.len(),
    ensures
        -1 <= last_index_of(entries, line, upto),
        last_index_of(entries, line, upto) < upto || upto <= 0,
        last_index_of(entries, line, upto) < entries.len(),
    decreases upto,
{
    if upto > 0 && entries[upto - 1] != line {
        lemma_last_index_of(entries, line, upto - 1);
    }
}

/// The last position before `upto` that holds `line`, if there is one.
fn find_last(entries: &Vec<String>, line: &str, upto: usize) -> (r: Option<usize>)
    requires
        upto <= entries.len(),
    ensures
        match r {
            Some(i) => i == last_index_of(entries.deep_view(), line@, upto as int) && i < upto,
            None => last_index_of(entries.deep_view(), line@, upto as int) == -1,
        },
{
    let mut i: usize = upto;
    while i > 0
        invariant
            i <= upto <= entries.len(),
            last_index_of(entries.deep_view(), line@, i as int) == last_index_of(
                entries.deep_view(),
                line@,
                upto as int,
            ),
        decreases i,
    {
        if text_eq(entries[i - 1].as_str(), line) {
            return Some(i - 1);
        }
        i -= 1;
    }
    None
}

// ---------------------------------------------------------------------------
// The log
// ---------------------------------------------------------------------------

/// The submitted lines in the order of submission, and how many of them the
/// history file already holds.
pub struct HistoryLog {
    entries: Vec<String>,
    flushed: usize,
}

impl View for HistoryLog {
    type V = Seq<Seq<char>>;

    closed spec fn view(&self) -> Seq<Seq<char>> {
        self.entries.deep_view()
    }
}

impl HistoryLog {
    #[verifier::type_invariant]
    spec fn wf(self) -> bool {
        self.flushed <= self.entries.len()
    }

    /// How many of the entries, counted from the first, the history file
    /// already holds.
    pub closed spec fn flushed(&self) -> nat {
        self.flushed as nat
    }

    /// An empty log.
    pub fn new() -> (log: Self)
        ensures
            log@ == Seq::<Seq<char>>::empty(),
            log.flushed() == 0,
    {
        let entries: Vec<String> = Vec::new();
        assert(entries.deep_view() =~= Seq::<Seq<char>>::empty());
        HistoryLog { entries, flushed: 0 }
    }

    /// The log that a session starts with: the lines that the history file
    /// holds, all of them marked as flushed.
    pub fn from_lines(lines: Vec<String>) -> (log: Self)
        ensures
            log@ == lines.deep_view(),
            log.flushed() == lines.len(),
    {
        let flushed = lines.len();
        HistoryLog { entries: lines, flushed }
    }

    /// The log that a session starts with, from the text of the history file.
    pub fn from_text(content: &str) -> (log: Self)
        ensures
            log@ == lines_of(content@),
            log.flushed() == log@.len(),
    {
        HistoryLog::from_lines(parse_lines(content))
    }

    /// The number of entries.
    pub fn len(&self) -> (n: usize)
        ensures
            n == self@.len(),
    {
        self.entries.len()
    }

    /// The number of entries that the history file already holds.
    pub fn flushed_len(&self) -> (n: usize)
        ensures
            n == self.flushed(),
            n <= self@.len(),
    {
        proof {
            use_type_invariant(self);
        }
        self.flushed
    }

    /// The entries, oldest first.
    pub fn entries(&self) -> (r: &Vec<String>)
        ensures
            r.deep_view() == self@,
    {
        &self.entries
    }

    /// The entry that lies `back` entries from the end, counted from one.
    pub fn recall(&self, back: usize) -> (r: Option<String>)
        ensures
            r.deep_view() == if 1 <= back <= self@.len() {
                Some(self@[self@.len() - back])
            } else {
                None
            },
    {
        if 1 <= back && back <= self.entries.len() {
            Some(self.entries[self.entries.len() - back].clone())
        } else {
            None
        }
    }

    /// Adds a submitted line at the end.
    pub fn push(&mut self, line: String)
        ensures
            final(self)@ == old(self)@.push(line@),
            final(self).flushed() == old(self).flushed(),
    {
        proof {
            use_type_invariant(&*self);
        }
        let flushed = self.flushed;
        self.flushed = 0;
        let mut entries: Vec<String> = Vec::new();
        std::mem::swap(&mut entries, &mut self.entries);
        entries.push(line);
        assert(entries.deep_view() =~= old(self)@.push(line@));
        self.entries = entries;
        self.flushed = flushed;
    }

    /// Adds the lines of a file's text at the end.
    pub fn load(&mut self, content: &str)
        ensures
            final(self)@ == old(self)@ + lines_of(content@),
            final(self).flushed() == old(self).flushed(),
    {
        let lines = parse_lines(content);
        let mut i: usize = 0;
        while i < lines.len()
            invariant
                i <= lines.len(),
                self@ == old(self)@ + lines.deep_view().take(i as int),
                self.flushed() == old(self).flushed(),
            decreases lines.len() - i,
        {
            let ghost before = self@;
            self.push(lines[i].clone());
            assert(before.push(lines@[i as int]@) =~= old(self)@ + lines.deep_view().take(i + 1));
            i += 1;
        }
        assert(lines.deep_view().take(lines.len() as int) =~= lines.deep_view());
    }

    /// Marks every entry as held by the history file.
    pub fn mark_flushed(&mut self)
        ensures
            final(self)@ == old(self)@,
            final(self).flushed() == old(self)@.len(),
    {
        self.flushed = self.entries.len();
    }

    /// The whole log as the text of a file.
    pub fn file_text(&self) -> (text: String)
        ensures
            text@ == file_text(self@),
    {
        render_file(&self.entries)
    }

    /// The entries that the history file does not hold yet, as the text of a
    /// file.
    pub fn unflushed_text(&self) -> (text: String)
        ensures
            text@ == file_text(self@.subrange(self.flushed() as int, self@.len() as int)),
    {
        proof {
            use_type_invariant(self);
        }
        let fresh = copy_strings(&self.entries, self.flushed, self.entries.len());
        render_file(&fresh)
    }

    /// What a request to append to `file` sends, as the text of a file.
    pub fn append_text(&self, file: &str) -> (text: String)
        ensures
            text@ == file_text(entries_to_append(self@, file@)),
    {
        let mut line = chars_of("history -a ");
        append_str(&mut line, file);
        let line = string_of(&line);
        let n = self.entries.len();
        let chosen = match find_last(&self.entries, line.as_str(), n) {
            Some(last) => match find_last(&self.entries, line.as_str(), last) {
                Some(prev) => copy_strings(&self.entries, prev + 1, last),
                None => copy_strings(&self.entries, 0, n),
            },
            None => {
                proof {
                    lemma_last_index_of(self@, line@, -1);
                }
                copy_strings(&self.entries, 0, n)
            },
        };
        assert(self@.subrange(0, n as int) =~= self@);
        render_file(&chosen)
    }

    /// The listing of the last `count` entries; of all of them where there
    /// are no more than `count`. Each entry stands on a line of its own
    /// behind its number, counted from one over the whole log.
    pub fn listing(&self, count: usize) -> (text: String)
        ensures
            text@ == listing_of_last(self@, count as nat),
    {
        let n = self.entries.len();
        let from: usize = if count >= n {
            0
        } else {
            n - count
        };
        let mut out: Vec<char> = Vec::new();
        let mut i: usize = from;
        while i < n
            invariant
                from <= i <= n,
                n == self.entries.len(),
                out@ == listing_text(self@, from as int, i as int),
            decreases n - i,
        {
            let ghost before = out@;
            append_str(&mut out, "    ");
            let number = decimal_string(i + 1);
            append_str(&mut out, number.as_str());
            append_str(&mut out, " ");
            append_str(&mut out, self.entries[i].as_str());
            append_str(&mut out, "\n");
            assert(out@ =~= before + entry_line(i as int, self@[i as int]));
            i += 1;
        }
        string_of(&out)
    }
}

} // verus!
