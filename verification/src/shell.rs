//! What a submitted line asks for: a pipeline, a single command, or nothing.

use vstd::prelude::*;
use crate::dispatch::dispatch;
use crate::dispatch::lookup_subject;
use crate::dispatch::parse_command;
use crate::dispatch::parsed;
use crate::dispatch::planned;
use crate::dispatch::Env;
use crate::dispatch::EnvView;
use crate::dispatch::Plan;
use crate::dispatch::PlanView;
use crate::history::HistoryLog;
use crate::pipeline::is_pipeline;
use crate::pipeline::plan_pipeline;
use crate::pipeline::stage_at;
use crate::pipeline::stage_texts;
use crate::pipeline::Stage;
use crate::words::words;
use crate::words::words_of;

verus! {

/// What is to be done for a line.
#[derive(Clone, Debug, PartialEq, Eq)]
pub enum LinePlan {
    /// Start the stages of a pipeline, one after another, and wait for them.
    Pipeline(Vec<Stage>),
    /// Carry out the plan of a single command.
    Single(Plan),
}

/// Whether a plan is one for the single command that a line holds: nothing
/// for a line without words; else what is planned for its command, for some
/// answer of the search path where the command asks for one.
pub open spec fn plan_of_single(
    plan: PlanView,
    line: Seq<char>,
    log: Seq<Seq<char>>,
    flushed: nat,
    env: EnvView,
) -> bool {
    match parsed(words_of(line)) {
        None => plan == PlanView::Nothing,
        Some((cmd, redirection)) => {
            &&& exists|found: Option<Seq<char>>|
                plan == #[trigger] planned(cmd, redirection, log, flushed, env, found)
            &&& lookup_subject(cmd) is None ==> plan == planned(
                cmd,
                redirection,
                log,
                flushed,
                env,
                None,
            )
        },
    }
}

/// What is to be done for a submitted line.
///
/// A line that ` | ` cuts into two pieces or more is a pipeline, and each
/// piece a stage of it. Any other line is split into words: the first word
/// names the command, the others give its arguments and its redirection. A
/// line without words, or with quoting that does not close, asks for
/// nothing.
pub fn plan_line(line: &str, history: &HistoryLog, env: &Env) -> (r: LinePlan)
    ensures
        match r {
            LinePlan::Pipeline(stages) => {
                &&& is_pipeline(line@)
                &&& stages.len() == stage_texts(line@).len()
                &&& forall|i: int|
                    0 <= i < stages.len() ==> stage_at(
                        #[trigger] stages.deep_view()[i],
                        stage_texts(line@),
                        i,
                    )
            },
            LinePlan::Single(plan) => {
                &&& !is_pipeline(line@)
                &&& plan_of_single(plan@, line@, history@, history.flushed(), env@)
            },
        },
{
    match plan_pipeline(line) {
        Some(stages) => LinePlan::Pipeline(stages),
        None => {
            let found = words(line);
            match parse_command(&found) {
                None => LinePlan::Single(Plan::Nothing),
                Some((cmd, redirection)) => LinePlan::Single(
                    dispatch(cmd, redirection, history, env),
                ),
            }
        },
    }
}

} // verus!
