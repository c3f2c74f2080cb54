//! What a single command does: which builtin or program it names, what text
//! it answers with, and where that text goes.

use vstd::prelude::*;
use crate::builtins::builtin_of;
use crate::builtins::classify;
use crate::builtins::Builtin;
use crate::history::entries_to_append;
use crate::history::file_text;
use crate::history::lemma_file_text_reads_back;
use crate::history::lines_of;
use crate::history::single_line;
use crate::history::listing_of_last;
use crate::history::HistoryLog;
use crate::lookup::find_executable;
use crate::number::number_of;
use crate::number::parse_capped;
use crate::redirection::resolve;
use crate::redirection::resolved;
use crate::redirection::Redirection;
use crate::redirection::RedirectionView;
use crate::text::append_str;
use crate::text::chars_of;
use crate::text::copy_strings;
use crate::text::join;
use crate::text::joined;
use crate::text::string_of;
use crate::text::string_of_range;
use crate::text::text_eq;
use crate::text::trim;
use crate::text::trimmed;

verus! {

// ---------------------------------------------------------------------------
// Commands
// ---------------------------------------------------------------------------

/// A command: the word that names it and the words that it is given.
#[derive(Clone, Debug, PartialEq, Eq)]
pub struct ParsedCommand {
    pub head: String,
    pub args: Vec<String>,
}

/// The mathematical value of a [`ParsedCommand`].
pub struct ParsedCommandView {
    pub head: Seq<char>,
    pub args: Seq<Seq<char>>,
}

impl View for ParsedCommand {
    type V = ParsedCommandView;

    open spec fn view(&self) -> ParsedCommandView {
        ParsedCommandView { head: self.head@, args: self.args.deep_view() }
    }
}

impl DeepView for ParsedCommand {
    type V = ParsedCommandView;

    open spec fn deep_view(&self) -> ParsedCommandView {
        self@
    }
}

/// The command and the redirection that a list of words stands for: the first
/// word names the command, the others are resolved into its arguments and its
/// redirection. No words, no command.
pub open spec fn parsed(words: Seq<Seq<char>>) -> Option<
    (ParsedCommandView, Option<RedirectionView>),
> {
    if words.len() == 0 {
        None
    } else {
        let rest = resolved(words.drop_first());
        Some((ParsedCommandView { head: words[0], args: rest.0 }, rest.1))
    }
}

/// The command and the redirection that a list of words stands for.
pub fn parse_command(words: &Vec<String>) -> (r: Option<(ParsedCommand, Option<Redirection>)>)
    ensures
        r.deep_view() == parsed(words.deep_view()),
{
    if words.len() == 0 {
        return None;
    }
    let head = words[0].clone();
    let rest = copy_strings(words, 1, words.len());
    assert(rest.deep_view() =~= words.deep_view().drop_first());
    let (args, redirection) = resolve(&rest);
    Some((ParsedCommand { head, args }, redirection))
}

// ---------------------------------------------------------------------------
// What the shell knows of its surroundings
// ---------------------------------------------------------------------------

/// What the shell was told of its surroundings when it started.
#[derive(Clone, Debug, PartialEq, Eq)]
pub struct Env {
    /// The home directory of the user.
    pub home: Option<String>,
    /// The path of the history file.
    pub history_file: Option<String>,
}

/// The mathematical value of an [`Env`].
pub struct EnvView {
    pub home: Option<Seq<char>>,
    pub history_file: Option<Seq<char>>,
}

impl View for Env {
    type V = EnvView;

    open spec fn view(&self) -> EnvView {
        EnvView { home: self.home.deep_view(), history_file: self.history_file.deep_view() }
    }
}

// ---------------------------------------------------------------------------
// Output of builtins
// ---------------------------------------------------------------------------

/// Text for a file: the file is extended if `append` holds, else it is
/// replaced by the text.
#[derive(Clone, Debug, PartialEq, Eq)]
pub struct FileWrite {
    pub path: String,
    pub append: bool,
    pub text: String,
}

/// The mathematical value of a [`FileWrite`].
pub struct FileWriteView {
    pub path: Seq<char>,
    pub append: bool,
    pub text: Seq<char>,
}

impl View for FileWrite {
    type V = FileWriteView;

    open spec fn view(&self) -> FileWriteView {
        FileWriteView { path: self.path@, append: self.append, text: self.text@ }
    }
}

impl DeepView for FileWrite {
    type V = FileWriteView;

    open spec fn deep_view(&self) -> FileWriteView {
        self@
    }
}

/// What a builtin sends out: first the write to a file, if there is one, then
/// the text for the terminal.
#[derive(Clone, Debug, PartialEq, Eq)]
pub struct Output {
    pub file: Option<FileWrite>,
    pub terminal: String,
}

/// The mathematical value of an [`Output`].
pub struct OutputView {
    pub file: Option<FileWriteView>,
    pub terminal: Seq<char>,
}

impl View for Output {
    type V = OutputView;

    open spec fn view(&self) -> OutputView {
        OutputView { file: self.file.deep_view(), terminal: self.terminal@ }
    }
}

/// Where the text of a builtin goes. Without a redirection, to the terminal.
/// With a redirection of the standard output, to the file and not to the
/// terminal. With a redirection of the standard error, to the terminal as
/// without one, and the file is left alone: a builtin writes nothing to the
/// standard error.
pub open spec fn routed(text: Seq<char>, redirection: Option<RedirectionView>) -> OutputView {
    match redirection {
        None => OutputView { file: None, terminal: text },
        Some(r) => if r.kind.takes_stdout() {
            OutputView {
                file: Some(FileWriteView { path: r.target, append: r.kind.is_append(), text: text }),
                terminal: Seq::empty(),
            }
        } else {
            OutputView { file: None, terminal: text }
        },
    }
}

/// Where the text of a builtin goes.
pub fn route_text(text: String, redirection: Option<Redirection>) -> (out: Output)
    ensures
        out@ == routed(text@, redirection.deep_view()),
{
    match redirection {
        None => Output { file: None, terminal: text },
        Some(r) => {
            let append = r.kind.is_append();
            if r.kind.takes_stdout() {
                Output {
                    file: Some(FileWrite { path: r.target, append, text }),
                    terminal: String::new(),
                }
            } else {
                Output { file: None, terminal: text }
            }
        },
    }
}

/// Text for the terminal alone.
pub open spec fn said(text: Seq<char>) -> OutputView {
    OutputView { file: None, terminal: text }
}

/// What `echo` sends out. Its words are joined by single spaces and ended
/// by a line feed; on the way to the terminal the white space at the two
/// ends of the joined words is dropped, on the way to a file it is kept.
pub open spec fn echo_output(
    args: Seq<Seq<char>>,
    redirection: Option<RedirectionView>,
) -> OutputView {
    let words = joined(args, " "@);
    match redirection {
        Some(r) => if r.kind.takes_stdout() {
            routed(words + "\n"@, redirection)
        } else {
            routed(trimmed(words) + "\n"@, redirection)
        },
        None => routed(trimmed(words) + "\n"@, redirection),
    }
}

/// What `echo` sends out.
pub fn echo(args: &Vec<String>, redirection: Option<Redirection>) -> (out: Output)
    ensures
        out@ == echo_output(args.deep_view(), redirection.deep_view()),
{
    let words = join(args, " ");
    let to_file = match &redirection {
        Some(r) => r.kind.takes_stdout(),
        None => false,
    };
    let mut text = if to_file {
        chars_of(words.as_str())
    } else {
        chars_of(trim(words.as_str()).as_str())
    };
    append_str(&mut text, "\n");
    route_text(string_of(&text), redirection)
}

/// The name that `type` is asked about: its words joined by single spaces,
/// without the white space at the two ends.
pub open spec fn type_subject(args: Seq<Seq<char>>) -> Seq<char> {
    trimmed(joined(args, " "@))
}

/// What `type` answers for a name: that it is a builtin; else the path that
/// was found for it; else that it was not found.
pub open spec fn type_text(name: Seq<char>, found: Option<Seq<char>>) -> Seq<char> {
    if builtin_of(name) is Some {
        name + " is a shell builtin\n"@
    } else {
        match found {
            Some(path) => name + " is "@ + path + "\n"@,
            None => name + ": not found\n"@,
        }
    }
}

/// What `type` answers for a name, given the path that was found for it.
pub fn type_report(name: &str, found: &Option<String>) -> (text: String)
    ensures
        text@ == type_text(name@, found.deep_view()),
{
    let mut out = chars_of(name);
    if classify(name).is_some() {
        append_str(&mut out, " is a shell builtin\n");
    } else {
        match found {
            Some(path) => {
                append_str(&mut out, " is ");
                append_str(&mut out, path.as_str());
                append_str(&mut out, "\n");
            },
            None => {
                append_str(&mut out, ": not found\n");
            },
        }
    }
    string_of(&out)
}

/// What the shell says of a command that is neither a builtin nor found.
pub open spec fn not_found_text(name: Seq<char>) -> Seq<char> {
    name + ": command not found\n"@
}

/// What the shell says of a command that is neither a builtin nor found.
pub fn not_found(name: &str) -> (text: String)
    ensures
        text@ == not_found_text(name@),
{
    let mut out = chars_of(name);
    append_str(&mut out, ": command not found\n");
    string_of(&out)
}

/// What `pwd` sends out, given the working directory.
pub open spec fn pwd_output(dir: Seq<char>, redirection: Option<RedirectionView>) -> OutputView {
    routed(dir + "\n"@, redirection)
}

/// What `pwd` sends out, given the working directory.
pub fn pwd(dir: &str, redirection: Option<Redirection>) -> (out: Output)
    ensures
        out@ == pwd_output(dir@, redirection.deep_view()),
{
    let mut text = chars_of(dir);
    append_str(&mut text, "\n");
    route_text(string_of(&text), redirection)
}

// ---------------------------------------------------------------------------
// Changing the directory
// ---------------------------------------------------------------------------

/// A path with a `~` at its start replaced by the home directory, where one
/// is known.
pub open spec fn home_expanded(path: Seq<char>, home: Option<Seq<char>>) -> Seq<char> {
    match home {
        Some(dir) => if path.len() > 0 && path[0] == '~' {
            dir + path.drop_first()
        } else {
            path
        },
        None => path,
    }
}

/// A path with a `~` at its start replaced by the home directory.
pub fn expand_home(path: &str, home: &Option<String>) -> (r: String)
    ensures
        r@ == home_expanded(path@, home.deep_view()),
{
    let cs = chars_of(path);
    match home {
        Some(dir) => {
            if cs.len() > 0 && cs[0] == '~' {
                let mut out = chars_of(dir.as_str());
                let rest = string_of_range(&cs, 1, cs.len());
                append_str(&mut out, rest.as_str());
                string_of(&out)
            } else {
                string_of(&cs)
            }
        },
        None => string_of(&cs),
    }
}

/// What the shell says when the directory cannot be changed to `path`.
pub open spec fn cd_failure_text(path: Seq<char>) -> Seq<char> {
    "cd: "@ + path + ": No such file or directory\n"@
}

/// What the shell says when the directory cannot be changed to `path`.
pub fn cd_failure(path: &str) -> (text: String)
    ensures
        text@ == cd_failure_text(path@),
{
    let mut out = chars_of("cd: ");
    append_str(&mut out, path);
    append_str(&mut out, ": No such file or directory\n");
    string_of(&out)
}

// ---------------------------------------------------------------------------
// Plans
// ---------------------------------------------------------------------------

/// What is to be done for a command.
#[derive(Clone, Debug, PartialEq, Eq)]
pub enum Plan {
    /// Nothing: the line held no command.
    Nothing,
    /// Send out the text of a builtin.
    Say(Output),
    /// Write what the history file lacks, if a history file is known, and
    /// end the shell with status 0.
    Exit { flush: Option<FileWrite> },
    /// Find the working directory and send it out as `pwd` does.
    WorkingDir { redirection: Option<Redirection> },
    /// Change the working directory; if that fails, say so as `cd` does.
    ChangeDir { path: String },
    /// Read the file and add its lines to the history.
    LoadHistory { path: String },
    /// Run the program, and route what it wrote.
    Run { program: String, args: Vec<String>, redirection: Option<Redirection> },
}

/// The mathematical value of a [`Plan`].
pub enum PlanView {
    Nothing,
    Say(OutputView),
    Exit { flush: Option<FileWriteView> },
    WorkingDir { redirection: Option<RedirectionView> },
    ChangeDir { path: Seq<char> },
    LoadHistory { path: Seq<char> },
    Run { program: Seq<char>, args: Seq<Seq<char>>, redirection: Option<RedirectionView> },
}

impl View for Plan {
    type V = PlanView;

    open spec fn view(&self) -> PlanView {
        match self {
            Plan::Nothing => PlanView::Nothing,
            Plan::Say(out) => PlanView::Say(out@),
            Plan::Exit { flush } => PlanView::Exit { flush: flush.deep_view() },
            Plan::WorkingDir { redirection } => PlanView::WorkingDir {
                redirection: redirection.deep_view(),
            },
            Plan::ChangeDir { path } => PlanView::ChangeDir { path: path@ },
            Plan::LoadHistory { path } => PlanView::LoadHistory { path: path@ },
            Plan::Run { program, args, redirection } => PlanView::Run {
                program: program@,
                args: args.deep_view(),
                redirection: redirection.deep_view(),
            },
        }
    }
}

/// What `exit` does: the entries that the history file lacks are appended to
/// it, where a history file is known.
pub open spec fn exit_plan(log: Seq<Seq<char>>, flushed: nat, env: EnvView) -> PlanView {
    PlanView::Exit {
        flush: match env.history_file {
            Some(path) => Some(
                FileWriteView {
                    path: path,
                    append: true,
                    text: file_text(log.subrange(flushed as int, log.len() as int)),
                },
            ),
            None => None,
        },
    }
}

/// How many entries `history` lists: as many as its first argument says, if
/// that is a number; else all.
pub open spec fn listed_count(args: Seq<Seq<char>>, len: nat) -> nat {
    if args.len() == 0 {
        len
    } else {
        match number_of(args[0]) {
            Some(n) => n,
            None => len,
        }
    }
}

/// What `history` does. With `-r` and a file: the file is read into the log.
/// With `-w` and a file: the file is replaced by the log. With `-a` and a
/// file: the file is extended by the entries since the last such request.
/// Else the log is listed.
pub open spec fn history_plan(
    args: Seq<Seq<char>>,
    log: Seq<Seq<char>>,
    redirection: Option<RedirectionView>,
) -> PlanView {
    if args.len() > 1 && args[0] == "-r"@ {
        PlanView::LoadHistory { path: args[1] }
    } else if args.len() > 1 && args[0] == "-w"@ {
        PlanView::Say(
            OutputView {
                file: Some(FileWriteView { path: args[1], append: false, text: file_text(log) }),
                terminal: Seq::empty(),
            },
        )
    } else if args.len() > 1 && args[0] == "-a"@ {
        PlanView::Say(
            OutputView {
                file: Some(
                    FileWriteView {
                        path: args[1],
                        append: true,
                        text: file_text(entries_to_append(log, args[1])),
                    },
                ),
                terminal: Seq::empty(),
            },
        )
    } else {
        PlanView::Say(routed(listing_of_last(log, listed_count(args, log.len())), redirection))
    }
}

/// A log that `history -w` has written to a file comes back from `history -r`
/// of that file: the first replaces the file by the text of the log, the
/// second asks for the file to be read, and the lines of that text are the
/// entries of the log, so that they stand behind the entries of the session
/// that reads them. This holds of a log that is not empty and whose entries
/// are single lines.
pub proof fn lemma_written_history_loads_back(
    log: Seq<Seq<char>>,
    file: Seq<char>,
    fresh: Seq<Seq<char>>,
)
    requires
        log.len() > 0,
        forall|i: int| 0 <= i < log.len() ==> single_line(#[trigger] log[i]),
    ensures
        history_plan(seq!["-w"@, file], log, None) == PlanView::Say(
            OutputView {
                file: Some(FileWriteView { path: file, append: false, text: file_text(log) }),
                terminal: Seq::empty(),
            },
        ),
        history_plan(seq!["-r"@, file], fresh, None) == (PlanView::LoadHistory { path: file }),
        fresh + lines_of(file_text(log)) == fresh + log,
{
    reveal_strlit("-w");
    reveal_strlit("-r");
    assert("-w"@[1] != "-r"@[1]);
    lemma_file_text_reads_back(log);
}

/// What `cd` does: it changes to its first argument, with the home
/// directory in place of a `~` at its start. Without an argument it says so.
pub open spec fn cd_plan(args: Seq<Seq<char>>, env: EnvView) -> PlanView {
    if args.len() == 0 {
        PlanView::Say(said("cd: missing argument\n"@))
    } else {
        PlanView::ChangeDir { path: home_expanded(args[0], env.home) }
    }
}

/// What is to be done for a command, given the path that was found for the
/// name that it makes the shell look up. The command is told by its name
/// without the white space at the two ends.
pub open spec fn planned(
    cmd: ParsedCommandView,
    redirection: Option<RedirectionView>,
    log: Seq<Seq<char>>,
    flushed: nat,
    env: EnvView,
    found: Option<Seq<char>>,
) -> PlanView {
    match builtin_of(trimmed(cmd.head)) {
        Some(Builtin::Exit) => exit_plan(log, flushed, env),
        Some(Builtin::Echo) => PlanView::Say(echo_output(cmd.args, redirection)),
        Some(Builtin::Type) => PlanView::Say(
            routed(type_text(type_subject(cmd.args), found), redirection),
        ),
        Some(Builtin::Pwd) => PlanView::WorkingDir { redirection: redirection },
        Some(Builtin::Cd) => cd_plan(cmd.args, env),
        Some(Builtin::History) => history_plan(cmd.args, log, redirection),
        Some(Builtin::Here) => PlanView::ChangeDir { path: "."@ },
        Some(Builtin::Parent) => PlanView::ChangeDir { path: ".."@ },
        None => match found {
            Some(_) => PlanView::Run {
                program: cmd.head,
                args: cmd.args,
                redirection: redirection,
            },
            None => PlanView::Say(said(not_found_text(trimmed(cmd.head)))),
        },
    }
}

/// The name that a command makes the shell look up on the search path, if it
/// makes it look up one: for `type`, the name it is asked about, unless that
/// is a builtin; for a command that is no builtin, its own name.
pub open spec fn lookup_subject(cmd: ParsedCommandView) -> Option<Seq<char>> {
    match builtin_of(trimmed(cmd.head)) {
        Some(Builtin::Type) => if builtin_of(type_subject(cmd.args)) is Some {
            None
        } else {
            Some(type_subject(cmd.args))
        },
        Some(_) => None,
        None => Some(trimmed(cmd.head)),
    }
}

/// Without a name to look up, what was found makes no difference.
pub proof fn lemma_plan_without_lookup(
    cmd: ParsedCommandView,
    redirection: Option<RedirectionView>,
    log: Seq<Seq<char>>,
    flushed: nat,
    env: EnvView,
    found: Option<Seq<char>>,
)
    requires
        lookup_subject(cmd) is None,
    ensures
        planned(cmd, redirection, log, flushed, env, found) == planned(
            cmd,
            redirection,
            log,
            flushed,
            env,
            None,
        ),
{
}

/// The name that a command makes the shell look up, if any.
pub fn lookup_name(cmd: &ParsedCommand) -> (r: Option<String>)
    ensures
        r.deep_view() == lookup_subject(cmd@),
{
    let name = trim(cmd.head.as_str());
    match classify(name.as_str()) {
        Some(Builtin::Type) => {
            let subject = trim(join(&cmd.args, " ").as_str());
            if classify(subject.as_str()).is_some() {
                None
            } else {
                Some(subject)
            }
        },
        Some(_) => None,
        None => Some(name),
    }
}

/// What `history` does.
fn plan_history(args: Vec<String>, history: &HistoryLog, redirection: Option<Redirection>) -> (plan:
    Plan)
    ensures
        plan@ == history_plan(args.deep_view(), history@, redirection.deep_view()),
{
    if args.len() > 1 && text_eq(args[0].as_str(), "-r") {
        Plan::LoadHistory { path: args[1].clone() }
    } else if args.len() > 1 && text_eq(args[0].as_str(), "-w") {
        Plan::Say(
            Output {
                file: Some(
                    FileWrite { path: args[1].clone(), append: false, text: history.file_text() },
                ),
                terminal: String::new(),
            },
        )
    } else if args.len() > 1 && text_eq(args[0].as_str(), "-a") {
        let text = history.append_text(args[1].as_str());
        Plan::Say(
            Output {
                file: Some(FileWrite { path: args[1].clone(), append: true, text }),
                terminal: String::new(),
            },
        )
    } else {
        let len = history.len();
        let count = if args.len() == 0 {
            len
        } else {
            match parse_capped(args[0].as_str(), len) {
                Some(n) => n,
                None => len,
            }
        };
        assert(listing_of_last(history@, count as nat) == listing_of_last(
            history@,
            listed_count(args.deep_view(), history@.len()),
        ));
        Plan::Say(route_text(history.listing(count), redirection))
    }
}

/// What is to be done for a command, given the path that was found for the
/// name that it makes the shell look up.
pub fn plan_with(
    cmd: ParsedCommand,
    redirection: Option<Redirection>,
    history: &HistoryLog,
    env: &Env,
    found: Option<String>,
) -> (plan: Plan)
    ensures
        plan@ == planned(
            cmd@,
            redirection.deep_view(),
            history@,
            history.flushed(),
            env@,
            found.deep_view(),
        ),
{
    let name = trim(cmd.head.as_str());
    match classify(name.as_str()) {
        Some(Builtin::Exit) => {
            let flush = match &env.history_file {
                Some(path) => Some(
                    FileWrite { path: path.clone(), append: true, text: history.unflushed_text() },
                ),
                None => None,
            };
            Plan::Exit { flush }
        },
        Some(Builtin::Echo) => Plan::Say(echo(&cmd.args, redirection)),
        Some(Builtin::Type) => {
            let subject = trim(join(&cmd.args, " ").as_str());
            Plan::Say(route_text(type_report(subject.as_str(), &found), redirection))
        },
        Some(Builtin::Pwd) => Plan::WorkingDir { redirection },
        Some(Builtin::Cd) => {
            if cmd.args.len() == 0 {
                Plan::Say(
                    Output { file: None, terminal: "cd: missing argument\n".to_string() },
                )
            } else {
                Plan::ChangeDir { path: expand_home(cmd.args[0].as_str(), &env.home) }
            }
        },
        Some(Builtin::History) => plan_history(cmd.args, history, redirection),
        Some(Builtin::Here) => Plan::ChangeDir { path: ".".to_string() },
        Some(Builtin::Parent) => Plan::ChangeDir { path: "..".to_string() },
        None => match found {
            Some(_) => Plan::Run { program: cmd.head, args: cmd.args, redirection },
            None => Plan::Say(Output { file: None, terminal: not_found(name.as_str()) }),
        },
    }
}

/// What is to be done for a command. Where the command makes the shell look
/// up a name, the search path is asked, and the plan is the one for what it
/// answered; else the plan is the one that needs no answer.
pub fn dispatch(
    cmd: ParsedCommand,
    redirection: Option<Redirection>,
    history: &HistoryLog,
    env: &Env,
) -> (plan: Plan)
    ensures
        exists|found: Option<Seq<char>>|
            plan@ == #[trigger] planned(
                cmd@,
                redirection.deep_view(),
                history@,
                history.flushed(),
                env@,
                found,
            ),
        lookup_subject(cmd@) is None ==> plan@ == planned(
            cmd@,
            redirection.deep_view(),
            history@,
            history.flushed(),
            env@,
            None,
        ),
{
    let found = match lookup_name(&cmd) {
        Some(name) => find_executable(name.as_str()),
        None => None,
    };
    proof {
        if lookup_subject(cmd@) is None {
            lemma_plan_without_lookup(
                cmd@,
                redirection.deep_view(),
                history@,
                history.flushed(),
                env@,
                found.deep_view(),
            );
        }
    }
    plan_with(cmd, redirection, history, env, found)
}

// ---------------------------------------------------------------------------
// Output of programs
// ---------------------------------------------------------------------------

/// What a program left behind: whether it ended well, and what it wrote.
#[derive(Clone, Debug, PartialEq, Eq)]
pub struct ProcessOutput {
    pub success: bool,
    pub stdout: Vec<u8>,
    pub stderr: Vec<u8>,
}

/// Bytes for a file: the file is extended if `append` holds, else it is
/// replaced by the bytes.
#[derive(Clone, Debug, PartialEq, Eq)]
pub struct FileBytes {
    pub path: String,
    pub append: bool,
    pub bytes: Vec<u8>,
}

/// The mathematical value of a [`FileBytes`].
pub struct FileBytesView {
    pub path: Seq<char>,
    pub append: bool,
    pub bytes: Seq<u8>,
}

impl View for FileBytes {
    type V = FileBytesView;

    open spec fn view(&self) -> FileBytesView {
        FileBytesView { path: self.path@, append: self.append, bytes: self.bytes@ }
    }
}

impl DeepView for FileBytes {
    type V = FileBytesView;

    open spec fn deep_view(&self) -> FileBytesView {
        self@
    }
}

/// Where the output of a program goes: first the write to a file, if there
/// is one, then the bytes for the standard output of the terminal, then those
/// for its standard error.
#[derive(Clone, Debug, PartialEq, Eq)]
pub struct Routed {
    pub file: Option<FileBytes>,
    pub stdout: Vec<u8>,
    pub stderr: Vec<u8>,
}

/// The mathematical value of a [`Routed`].
pub struct RoutedView {
    pub file: Option<FileBytesView>,
    pub stdout: Seq<u8>,
    pub stderr: Seq<u8>,
}

impl View for Routed {
    type V = RoutedView;

    open spec fn view(&self) -> RoutedView {
        RoutedView { file: self.file.deep_view(), stdout: self.stdout@, stderr: self.stderr@ }
    }
}

/// The standard output of a program as the terminal shows it: as it is, with
/// a line feed behind it where the program ended well and did not end its
/// output with one.
pub open spec fn shown_stdout(success: bool, stdout: Seq<u8>) -> Seq<u8> {
    if success && (stdout.len() == 0 || stdout.last() != 10u8) {
        stdout.push(10u8)
    } else {
        stdout
    }
}

/// Where the output of a program goes. Without a redirection both streams go
/// to the terminal. With one, the stream that it names goes to the file as it
/// is and the other one to the terminal as it is.
pub open spec fn routed_process(
    success: bool,
    stdout: Seq<u8>,
    stderr: Seq<u8>,
    redirection: Option<RedirectionView>,
) -> RoutedView {
    match redirection {
        None => RoutedView { file: None, stdout: shown_stdout(success, stdout), stderr: stderr },
        Some(r) => if r.kind.takes_stdout() {
            RoutedView {
                file: Some(
                    FileBytesView { path: r.target, append: r.kind.is_append(), bytes: stdout },
                ),
                stdout: Seq::empty(),
                stderr: stderr,
            }
        } else {
            RoutedView {
                file: Some(
                    FileBytesView { path: r.target, append: r.kind.is_append(), bytes: stderr },
                ),
                stdout: stdout,
                stderr: Seq::empty(),
            }
        },
    }
}

/// Where the output of a program goes.
pub fn route_process(output: ProcessOutput, redirection: Option<Redirection>) -> (r: Routed)
    ensures
        r@ == routed_process(output.success, output.stdout@, output.stderr@, redirection.deep_view()),
{
    let ProcessOutput { success, stdout, stderr } = output;
    match redirection {
        None => {
            let mut shown = stdout;
            let n = shown.len();
            if success && (n == 0 || shown[n - 1] != 10u8) {
                shown.push(10u8);
            }
            Routed { file: None, stdout: shown, stderr }
        },
        Some(r) => {
            let append = r.kind.is_append();
            if r.kind.takes_stdout() {
                Routed {
                    file: Some(FileBytes { path: r.target, append, bytes: stdout }),
                    stdout: Vec::new(),
                    stderr,
                }
            } else {
                Routed {
                    file: Some(FileBytes { path: r.target, append, bytes: stderr }),
                    stdout,
                    stderr: Vec::new(),
                }
            }
        },
    }
}

} // verus!
