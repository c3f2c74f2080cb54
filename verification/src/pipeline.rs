//! Pipelines: how a line is cut into stages, and what each stage is.

use vstd::prelude::*;
use crate::builtins::builtin_of;
use crate::builtins::classify;
use crate::builtins::Builtin;
use crate::dispatch::type_report;
use crate::dispatch::type_subject;
use crate::dispatch::type_text;
use crate::lookup::find_executable;
use crate::text::append_str;
use crate::text::chars_of;
use crate::text::copy_strings;
use crate::text::join;
use crate::text::joined;
use crate::text::pieces;
use crate::text::split;
use crate::text::string_of;
use crate::text::trim;
use crate::text::trimmed;
use crate::words::words;
use crate::words::words_of;

verus! {

/// What a stage of a pipeline is.
#[derive(Clone, Debug, PartialEq, Eq)]
pub enum StageAction {
    /// A stage without words: nothing is started for it.
    Skip,
    /// `exit`: the shell ends at once, with status 0.
    Exit,
    /// A builtin: its text is fed to a process that passes it on.
    Feed { text: String },
    /// `pwd`: the working directory and a line feed are fed to a process
    /// that passes them on.
    FeedWorkingDir,
    /// A program, started with the output of the stage before it as its input.
    Spawn { program: String, args: Vec<String> },
}

/// The mathematical value of a [`StageAction`].
pub enum StageActionView {
    Skip,
    Exit,
    Feed { text: Seq<char> },
    FeedWorkingDir,
    Spawn { program: Seq<char>, args: Seq<Seq<char>> },
}

impl View for StageAction {
    type V = StageActionView;

    open spec fn view(&self) -> StageActionView {
        match self {
            StageAction::Skip => StageActionView::Skip,
            StageAction::Exit => StageActionView::Exit,
            StageAction::Feed { text } => StageActionView::Feed { text: text@ },
            StageAction::FeedWorkingDir => StageActionView::FeedWorkingDir,
            StageAction::Spawn { program, args } => StageActionView::Spawn {
                program: program@,
                args: args.deep_view(),
            },
        }
    }
}

/// A stage of a pipeline: what it is and where it stands. The output of a
/// stage is the input of the next one; that of the last stage goes to the
/// terminal.
#[derive(Clone, Debug, PartialEq, Eq)]
pub struct Stage {
    pub action: StageAction,
    pub index: usize,
    pub first: bool,
    pub last: bool,
}

/// The mathematical value of a [`Stage`].
pub struct StageView {
    pub action: StageActionView,
    pub index: nat,
    pub first: bool,
    pub last: bool,
}

impl View for Stage {
    type V = StageView;

    open spec fn view(&self) -> StageView {
        StageView {
            action: self.action@,
            index: self.index as nat,
            first: self.first,
            last: self.last,
        }
    }
}

impl DeepView for Stage {
    type V = StageView;

    open spec fn deep_view(&self) -> StageView {
        self@
    }
}

/// The texts of the stages of a line: what stands between its ` | `.
pub open spec fn stage_texts(line: Seq<char>) -> Seq<Seq<char>> {
    pieces(line, " | "@)
}

/// Whether a line is a pipeline: it has two stages or more.
pub open spec fn is_pipeline(line: Seq<char>) -> bool {
    stage_texts(line).len() >= 2
}

/// What a stage with these words is, given the path that was found for the
/// name that it makes the shell look up. Of the builtins only `exit`,
/// `echo`, `type` and `pwd` are known in a pipeline; any other first word
/// names a program.
pub open spec fn stage_action(words: Seq<Seq<char>>, found: Option<Seq<char>>) -> StageActionView {
    if words.len() == 0 {
        StageActionView::Skip
    } else {
        let args = words.drop_first();
        match builtin_of(trimmed(words[0])) {
            Some(Builtin::Exit) => StageActionView::Exit,
            Some(Builtin::Echo) => StageActionView::Feed {
                text: trimmed(joined(args, " "@)) + "\n"@,
            },
            Some(Builtin::Type) => StageActionView::Feed {
                text: type_text(type_subject(args), found),
            },
            Some(Builtin::Pwd) => StageActionView::FeedWorkingDir,
            _ => StageActionView::Spawn { program: words[0], args: args },
        }
    }
}

/// The name that a stage makes the shell look up on the search path, if it
/// makes it look up one: for `type`, the name it is asked about, unless that
/// is a builtin.
pub open spec fn stage_lookup(words: Seq<Seq<char>>) -> Option<Seq<char>> {
    if words.len() > 0 && builtin_of(trimmed(words[0])) == Some(Builtin::Type) && builtin_of(
        type_subject(words.drop_first()),
    ) is None {
        Some(type_subject(words.drop_first()))
    } else {
        None
    }
}

/// The name that a stage makes the shell look up, if any.
pub fn stage_lookup_name(words: &Vec<String>) -> (r: Option<String>)
    ensures
        r.deep_view() == stage_lookup(words.deep_view()),
{
    if words.len() == 0 {
        return None;
    }
    let name = trim(words[0].as_str());
    match classify(name.as_str()) {
        Some(Builtin::Type) => {
            let args = copy_strings(words, 1, words.len());
            assert(args.deep_view() =~= words.deep_view().drop_first());
            let subject = trim(join(&args, " ").as_str());
            if classify(subject.as_str()).is_some() {
                None
            } else {
                Some(subject)
            }
        },
        _ => None,
    }
}

/// What a stage with these words is, given the path that was found for the
/// name that it makes the shell look up.
pub fn stage_for(words: &Vec<String>, found: &Option<String>) -> (action: StageAction)
    ensures
        action@ == stage_action(words.deep_view(), found.deep_view()),
{
    if words.len() == 0 {
        return StageAction::Skip;
    }
    let args = copy_strings(words, 1, words.len());
    assert(args.deep_view() =~= words.deep_view().drop_first());
    let name = trim(words[0].as_str());
    match classify(name.as_str()) {
        Some(Builtin::Exit) => StageAction::Exit,
        Some(Builtin::Echo) => {
            let mut text = chars_of(trim(join(&args, " ").as_str()).as_str());
            append_str(&mut text, "\n");
            StageAction::Feed { text: string_of(&text) }
        },
        Some(Builtin::Type) => {
            let subject = trim(join(&args, " ").as_str());
            StageAction::Feed { text: type_report(subject.as_str(), found) }
        },
        Some(Builtin::Pwd) => StageAction::FeedWorkingDir,
        _ => StageAction::Spawn { program: words[0].clone(), args },
    }
}

/// Without a name to look up, what was found makes no difference.
pub proof fn lemma_stage_without_lookup(words: Seq<Seq<char>>, found: Option<Seq<char>>)
    requires
        stage_lookup(words) is None,
    ensures
        stage_action(words, found) == stage_action(words, None),
{
}

/// Whether a stage is the one that stands at position `i` of the stages with
/// these texts: it knows its place, and it is what its words make it, for
/// some answer of the search path where its words ask for one.
pub open spec fn stage_at(stage: StageView, texts: Seq<Seq<char>>, i: int) -> bool {
    &&& stage.index == i
    &&& stage.first == (i == 0)
    &&& stage.last == (i == texts.len() - 1)
    &&& exists|found: Option<Seq<char>>|
        stage.action == #[trigger] stage_action(words_of(texts[i]), found)
    &&& stage_lookup(words_of(texts[i])) is None ==> stage.action == stage_action(
        words_of(texts[i]),
        None,
    )
}

/// The stages of a line, if the line is a pipeline.
///
/// The line is cut at each ` | `. With fewer than two pieces it is no
/// pipeline. Else each piece is split into words and becomes a stage; the
/// search path is asked where a stage is a `type` of a name that is no
/// builtin.
pub fn plan_pipeline(line: &str) -> (r: Option<Vec<Stage>>)
    ensures
        r is Some <==> is_pipeline(line@),
        match r {
            Some(stages) => {
                &&& stages.len() == stage_texts(line@).len()
                &&& forall|i: int|
                    0 <= i < stages.len() ==> stage_at(
                        #[trigger] stages.deep_view()[i],
                        stage_texts(line@),
                        i,
                    )
            },
            None => true,
        },
{
    let texts = split(line, " | ");
    if texts.len() < 2 {
        return None;
    }
    let n = texts.len();
    let mut stages: Vec<Stage> = Vec::new();
    let mut i: usize = 0;
    while i < n
        invariant
            i <= n,
            n == texts.len(),
            texts.deep_view() == stage_texts(line@),
            stages.len() == i,
            forall|j: int|
                0 <= j < i ==> stage_at(#[trigger] stages.deep_view()[j], texts.deep_view(), j),
        decreases n - i,
    {
        let found_words = words(texts[i].as_str());
        let found = match stage_lookup_name(&found_words) {
            Some(name) => find_executable(name.as_str()),
            None => None,
        };
        let action = stage_for(&found_words, &found);
        proof {
            assert(texts.deep_view()[i as int] == texts@[i as int]@);
            if stage_lookup(found_words.deep_view()) is None {
                lemma_stage_without_lookup(found_words.deep_view(), found.deep_view());
            }
        }
        let stage = Stage { action, index: i, first: i == 0, last: i == n - 1 };
        assert(stage_at(stage@, texts.deep_view(), i as int));
        let ghost before = stages.deep_view();
        stages.push(stage);
        assert forall|j: int| 0 <= j < i + 1 implies stage_at(
            #[trigger] stages.deep_view()[j],
            texts.deep_view(),
            j,
        ) by {
            if j < i {
                assert(stages.deep_view()[j] == before[j]);
            }
        }
        i += 1;
    }
    Some(stages)
}

} // verus!
