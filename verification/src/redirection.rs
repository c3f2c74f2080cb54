//! Output redirection: which operator tokens an argument list holds, and what
//! is left of the list once the redirection is taken out of it.

use vstd::prelude::*;
use crate::text::copy_strings;
use crate::text::text_eq;

verus! {

/// Which stream a redirection takes, and whether the target file is
/// extended or replaced.
#[derive(Clone, Copy, PartialEq, Eq, Debug, Structural)]
pub enum RedirectionKind {
    Stdout,
    Stderr,
    AppendStdout,
    AppendStderr,
}

impl RedirectionKind {
    pub open spec fn spec_is_append(self) -> bool {
        self == RedirectionKind::AppendStdout || self == RedirectionKind::AppendStderr
    }

    /// Whether the target file keeps what it holds.
    #[verifier::when_used_as_spec(spec_is_append)]
    pub fn is_append(self) -> (r: bool)
        ensures
            r == self.spec_is_append(),
    {
        match self {
            RedirectionKind::AppendStdout | RedirectionKind::AppendStderr => true,
            _ => false,
        }
    }

    pub open spec fn spec_takes_stdout(self) -> bool {
        self == RedirectionKind::Stdout || self == RedirectionKind::AppendStdout
    }

    /// Whether it is the standard output that goes to the file (otherwise it
    /// is the standard error).
    #[verifier::when_used_as_spec(spec_takes_stdout)]
    pub fn takes_stdout(self) -> (r: bool)
        ensures
            r == self.spec_takes_stdout(),
    {
        match self {
            RedirectionKind::Stdout | RedirectionKind::AppendStdout => true,
            _ => false,
        }
    }
}

/// A redirection found on a command line: its kind and the path of the file.
#[derive(Clone, Debug, PartialEq, Eq)]
pub struct Redirection {
    pub kind: RedirectionKind,
    pub target: String,
}

/// The mathematical value of a [`Redirection`].
pub struct RedirectionView {
    pub kind: RedirectionKind,
    pub target: Seq<char>,
}

impl View for Redirection {
    type V = RedirectionView;

    open spec fn view(&self) -> RedirectionView {
        RedirectionView { kind: self.kind, target: self.target@ }
    }
}

impl DeepView for Redirection {
    type V = RedirectionView;

    open spec fn deep_view(&self) -> RedirectionView {
        self@
    }
}

/// The kind of redirection that a token asks for, if it is an operator.
pub open spec fn operator_kind(token: Seq<char>) -> Option<RedirectionKind> {
    if token == ">"@ || token == "1>"@ {
        Some(RedirectionKind::Stdout)
    } else if token == "2>"@ {
        Some(RedirectionKind::Stderr)
    } else if token == ">>"@ || token == "1>>"@ {
        Some(RedirectionKind::AppendStdout)
    } else if token == "2>>"@ {
        Some(RedirectionKind::AppendStderr)
    } else {
        None
    }
}

/// The kind of redirection that a token asks for, if it is an operator.
pub fn operator_of(token: &str) -> (r: Option<RedirectionKind>)
    ensures
        r == operator_kind(token@),
{
    if text_eq(token, ">") || text_eq(token, "1>") {
        Some(RedirectionKind::Stdout)
    } else if text_eq(token, "2>") {
        Some(RedirectionKind::Stderr)
    } else if text_eq(token, ">>") || text_eq(token, "1>>") {
        Some(RedirectionKind::AppendStdout)
    } else if text_eq(token, "2>>") {
        Some(RedirectionKind::AppendStderr)
    } else {
        None
    }
}

/// The first position at or after `from` that holds an operator of `kind`;
/// the length of the list if there is none.
pub open spec fn first_operator(args: Seq<Seq<char>>, kind: RedirectionKind, from: int) -> int
    decreases args.len() - from,
{
    if 0 <= from < args.len() {
        if operator_kind(args[from]) == Some(kind) {
            from
        } else {
            first_operator(args, kind, from + 1)
        }
    } else {
        args.len() as int
    }
}

/// Where the operators of one kind take effect: at the first of them, and
/// only if a token follows it.
pub open spec fn operator_hit(args: Seq<Seq<char>>, kind: RedirectionKind) -> Option<int> {
    let p = first_operator(args, kind, 0);
    if p + 1 < args.len() {
        Some(p)
    } else {
        None
    }
}

/// What one kind of operator makes of the result so far: where it takes
/// effect it replaces the result, elsewhere it leaves it.
pub open spec fn resolved_with(
    args: Seq<Seq<char>>,
    kind: RedirectionKind,
    so_far: (Seq<Seq<char>>, Option<RedirectionView>),
) -> (Seq<Seq<char>>, Option<RedirectionView>) {
    match operator_hit(args, kind) {
        Some(p) => (args.take(p), Some(RedirectionView { kind: kind, target: args[p + 1] })),
        None => so_far,
    }
}

/// The arguments that stay and the redirection of an argument list. The four
/// kinds are looked for one after another over the whole list, and a later
/// kind that takes effect replaces an earlier one.
pub open spec fn resolved(args: Seq<Seq<char>>) -> (Seq<Seq<char>>, Option<RedirectionView>) {
    let r0 = (args, None::<RedirectionView>);
    let r1 = resolved_with(args, RedirectionKind::Stdout, r0);
    let r2 = resolved_with(args, RedirectionKind::Stderr, r1);
    let r3 = resolved_with(args, RedirectionKind::AppendStdout, r2);
    resolved_with(args, RedirectionKind::AppendStderr, r3)
}

/// Whether no token of the list is a redirection operator.
pub open spec fn operator_free(args: Seq<Seq<char>>) -> bool {
    forall|i: int| 0 <= i < args.len() ==> operator_kind(#[trigger] args[i]) is None
}

proof fn lemma_first_operator_range(args: Seq<Seq<char>>, kind: RedirectionKind, from: int)
    requires
        0 <= from <= args.len(),
    ensures
        from <= first_operator(args, kind, from) <= args.len(),
        first_operator(args, kind, from) < args.len() ==> operator_kind(
            args[first_operator(args, kind, from)],
        ) == Some(kind),
    decreases args.len() - from,
{
    if from < args.len() && operator_kind(args[from]) != Some(kind) {
        lemma_first_operator_range(args, kind, from + 1);
    }
}

/// A list without operator tokens is left as it is, and has no redirection.
pub proof fn lemma_operator_free_unchanged(args: Seq<Seq<char>>)
    requires
        operator_free(args),
    ensures
        resolved(args) == (args, None::<RedirectionView>),
{
    lemma_first_operator_range(args, RedirectionKind::Stdout, 0);
    lemma_first_operator_range(args, RedirectionKind::Stderr, 0);
    lemma_first_operator_range(args, RedirectionKind::AppendStdout, 0);
    lemma_first_operator_range(args, RedirectionKind::AppendStderr, 0);
}

/// The first position of `args` that holds an operator of `kind`; the length
/// of the list if there is none.
fn find_operator(args: &Vec<String>, kind: RedirectionKind) -> (p: usize)
    ensures
        p == first_operator(args.deep_view(), kind, 0),
        p <= args.len(),
{
    let mut i: usize = 0;
    while i < args.len()
        invariant
            i <= args.len(),
            first_operator(args.deep_view(), kind, i as int) == first_operator(
                args.deep_view(),
                kind,
                0,
            ),
        decreases args.len() - i,
    {
        let found = operator_of(args[i].as_str());
        if found == Some(kind) {
            return i;
        }
        i += 1;
    }
    i
}

/// Applies the operators of one kind to the result so far.
fn resolve_with(
    args: &Vec<String>,
    kind: RedirectionKind,
    so_far: (Vec<String>, Option<Redirection>),
) -> (r: (Vec<String>, Option<Redirection>))
    ensures
        r.deep_view() == resolved_with(args.deep_view(), kind, so_far.deep_view()),
{
    let p = find_operator(args, kind);
    if p < args.len() && p + 1 < args.len() {
        let kept = copy_strings(args, 0, p);
        let target = args[p + 1].clone();
        (kept, Some(Redirection { kind, target }))
    } else {
        so_far
    }
}

/// Splits an argument list into the arguments that stay and the redirection.
///
/// Each kind of operator is looked for over the whole list, in the order
/// `>`/`1>`, `2>`, `>>`/`1>>`, `2>>`. A kind takes effect at its first operator
/// if a token follows it: that token is the target, the tokens before the
/// operator stay, the rest is dropped. Of several kinds that take effect the
/// last one in that order wins. With none, the list comes back unchanged.
pub fn resolve(args: &Vec<String>) -> (r: (Vec<String>, Option<Redirection>))
    ensures
        r.deep_view() == resolved(args.deep_view()),
        operator_free(args.deep_view()) ==> r.1 is None && r.0.deep_view() == args.deep_view(),
{
    let all = copy_strings(args, 0, args.len());
    assert(args.deep_view().subrange(0, args.len() as int) == args.deep_view());
    let r0 = (all, None);
    let r1 = resolve_with(args, RedirectionKind::Stdout, r0);
    let r2 = resolve_with(args, RedirectionKind::Stderr, r1);
    let r3 = resolve_with(args, RedirectionKind::AppendStdout, r2);
    let r4 = resolve_with(args, RedirectionKind::AppendStderr, r3);
    proof {
        if operator_free(args.deep_view()) {
            lemma_operator_free_unchanged(args.deep_view());
        }
    }
    r4
}

} // verus!
