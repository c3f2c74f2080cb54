//! Splitting a command line into words.

use vstd::prelude::*;
use crate::text::trim;
use crate::text::trimmed;

verus! {

/// The words that `shlex::split` makes of a text, or `None` where it finds the
/// text erroneous: an open quotation, or a backslash with nothing after it.
pub uninterp spec fn shell_words(text: Seq<char>) -> Option<Seq<Seq<char>>>;

/// `shlex::split`: the text is split into words as a POSIX shell would do it,
/// with single quotes, double quotes and backslashes honoured. The result is
/// a function of the text alone, which `shell_words` names.
#[verifier::external_body]
fn split_words(text: &str) -> (r: Option<Vec<String>>)
    ensures
        r.deep_view() == shell_words(text@),
{
    shlex::split(text)
}

/// A line whose quoting does not close.
#[derive(Clone, Copy, PartialEq, Eq, Debug, Structural)]
pub struct MalformedQuoting;

/// The words of a line, or nothing where its quoting is malformed.
pub open spec fn words_of(line: Seq<char>) -> Seq<Seq<char>> {
    match shell_words(trimmed(line)) {
        Some(words) => words,
        None => Seq::empty(),
    }
}

/// Splits a line into words. White space at the ends of the line is dropped
/// first; the words are those of `shell_words`.
pub fn tokenize(line: &str) -> (r: Result<Vec<String>, MalformedQuoting>)
    ensures
        match r {
            Ok(words) => shell_words(trimmed(line@)) == Some(words.deep_view()),
            Err(_) => shell_words(trimmed(line@)) is None,
        },
{
    let inner = trim(line);
    match split_words(inner.as_str()) {
        Some(words) => Ok(words),
        None => Err(MalformedQuoting),
    }
}

/// The words of a line. A line with malformed quoting has none.
pub fn words(line: &str) -> (r: Vec<String>)
    ensures
        r.deep_view() == words_of(line@),
{
    match tokenize(line) {
        Ok(found) => found,
        Err(_) => {
            let none: Vec<String> = Vec::new();
            assert(none.deep_view() =~= Seq::<Seq<char>>::empty());
            none
        },
    }
}

} // verus!
