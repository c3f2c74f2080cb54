//! The line editor: the line being typed, the history it recalls from, and
//! what each key does to them.

use vstd::prelude::*;
use crate::completion::candidates;
use crate::completion::CommandTable;
use crate::history::lines_of;
use crate::history::HistoryLog;
use crate::text::append_str;
use crate::text::chars_of;
use crate::text::join;
use crate::text::joined;
use crate::text::string_of;
use crate::text::string_of_range;
use crate::utils::lcp;
use crate::utils::lcp_of;

verus! {

// ---------------------------------------------------------------------------
// Keys
// ---------------------------------------------------------------------------

/// Which key it is.
#[derive(Clone, Copy, PartialEq, Eq, Debug, Structural)]
pub enum KeyCode {
    Char(char),
    Enter,
    Tab,
    Backspace,
    Up,
    Down,
    /// Any other key.
    Other,
}

/// A key event: the key, whether the control key was held, and whether the
/// key went down (rather than up, or repeated).
#[derive(Clone, Copy, PartialEq, Eq, Debug, Structural)]
pub struct Key {
    pub code: KeyCode,
    pub control: bool,
    pub press: bool,
}

// ---------------------------------------------------------------------------
// Reactions
// ---------------------------------------------------------------------------

/// What the terminal is to do after a key.
#[derive(Clone, Debug, PartialEq, Eq)]
pub enum Reaction {
    /// Nothing.
    Nothing,
    /// End the session.
    Quit,
    /// Sound the bell.
    Bell,
    /// Show the character that was typed.
    Echo(char),
    /// Wipe out the last character shown.
    Erase,
    /// Show the prompt and the line anew.
    Redraw,
    /// Show the candidates on a line of their own, then the prompt and the
    /// line.
    List(Vec<String>),
    /// Run the line that was submitted, then show the prompt.
    Submit(String),
    /// Show the prompt again: an empty line was submitted.
    Prompt,
}

/// The mathematical value of a [`Reaction`].
pub enum ReactionView {
    Nothing,
    Quit,
    Bell,
    Echo(char),
    Erase,
    Redraw,
    List(Seq<Seq<char>>),
    Submit(Seq<char>),
    Prompt,
}

impl View for Reaction {
    type V = ReactionView;

    open spec fn view(&self) -> ReactionView {
        match self {
            Reaction::Nothing => ReactionView::Nothing,
            Reaction::Quit => ReactionView::Quit,
            Reaction::Bell => ReactionView::Bell,
            Reaction::Echo(c) => ReactionView::Echo(*c),
            Reaction::Erase => ReactionView::Erase,
            Reaction::Redraw => ReactionView::Redraw,
            Reaction::List(names) => ReactionView::List(names.deep_view()),
            Reaction::Submit(line) => ReactionView::Submit(line@),
            Reaction::Prompt => ReactionView::Prompt,
        }
    }
}

/// The text that a reaction sends to the terminal, given the line as it is
/// after the key.
pub open spec fn terminal_text(reaction: ReactionView, line: Seq<char>) -> Seq<char> {
    match reaction {
        ReactionView::Nothing => Seq::empty(),
        ReactionView::Quit => Seq::empty(),
        ReactionView::Bell => "\x07"@,
        ReactionView::Echo(c) => seq![c],
        ReactionView::Erase => "\x08 \x08"@,
        ReactionView::Redraw => "\r\x1b[2K$ "@ + line,
        ReactionView::List(names) => "\r\n"@ + joined(names, " "@) + "\n$ "@ + line,
        ReactionView::Submit(_) => "\n"@,
        ReactionView::Prompt => "\n\r$ "@,
    }
}

/// Whether the terminal has to leave its raw mode before it carries out the
/// reaction: before it lists candidates, before it runs a line, and before
/// the session ends.
pub open spec fn leaves_raw_mode(reaction: ReactionView) -> bool {
    reaction is List || reaction is Submit || reaction is Prompt || reaction is Quit
}

/// The prompt at the start of a line of the terminal.
pub fn prompt() -> (text: String)
    ensures
        text@ == "\r$ "@,
{
    "\r$ ".to_string()
}

impl Reaction {
    /// The text that the reaction sends to the terminal, given the line as it
    /// is after the key.
    pub fn text(&self, line: &str) -> (text: String)
        ensures
            text@ == terminal_text(self@, line@),
    {
        match self {
            Reaction::Nothing => String::new(),
            Reaction::Quit => String::new(),
            Reaction::Bell => "\x07".to_string(),
            Reaction::Echo(c) => {
                let mut out: Vec<char> = Vec::new();
                out.push(*c);
                assert(out@ =~= seq![*c]);
                string_of(&out)
            },
            Reaction::Erase => "\x08 \x08".to_string(),
            Reaction::Redraw => {
                let mut out = chars_of("\r\x1b[2K$ ");
                append_str(&mut out, line);
                string_of(&out)
            },
            Reaction::List(names) => {
                let mut out = chars_of("\r\n");
                append_str(&mut out, join(names, " ").as_str());
                append_str(&mut out, "\n$ ");
                append_str(&mut out, line);
                string_of(&out)
            },
            Reaction::Submit(_) => "\n".to_string(),
            Reaction::Prompt => "\n\r$ ".to_string(),
        }
    }

    /// Whether the terminal has to leave its raw mode before it carries out
    /// the reaction.
    pub fn leaves_raw_mode(&self) -> (r: bool)
        ensures
            r == leaves_raw_mode(self@),
    {
        match self {
            Reaction::List(_) => true,
            Reaction::Submit(_) => true,
            Reaction::Prompt => true,
            Reaction::Quit => true,
            _ => false,
        }
    }
}

// ---------------------------------------------------------------------------
// Comparing without regard to case
// ---------------------------------------------------------------------------

/// The code point of a character, with that of the small letter for a
/// capital letter of ASCII.
pub open spec fn folded(c: char) -> u32 {
    let n = c as u32;
    if 0x41 <= n <= 0x5a {
        (n + 0x20) as u32
    } else {
        n
    }
}

/// Whether two texts are the same but for the case of their ASCII letters.
pub open spec fn same_ignoring_case(a: Seq<char>, b: Seq<char>) -> bool {
    &&& a.len() == b.len()
    &&& forall|i: int| 0 <= i < a.len() ==> folded(a[i]) == folded(b[i])
}

fn fold(c: char) -> (n: u32)
    ensures
        n == folded(c),
{
    let n: u32 = c as u32;
    if 0x41 <= n && n <= 0x5a {
        n + 0x20
    } else {
        n
    }
}

/// Whether two texts are the same but for the case of their ASCII letters.
pub fn eq_ignoring_case(a: &str, b: &str) -> (r: bool)
    ensures
        r == same_ignoring_case(a@, b@),
{
    let x = chars_of(a);
    let y = chars_of(b);
    if x.len() != y.len() {
        return false;
    }
    let mut i: usize = 0;
    while i < x.len()
        invariant
            x@ == a@,
            y@ == b@,
            x.len() == y.len(),
            i <= x.len(),
            forall|j: int| 0 <= j < i ==> folded(x@[j]) == folded(y@[j]),
        decreases x.len() - i,
    {
        if fold(x[i]) != fold(y[i]) {
            return false;
        }
        i += 1;
    }
    true
}

// ---------------------------------------------------------------------------
// The editor
// ---------------------------------------------------------------------------

/// The mathematical value of an [`Editor`].
pub struct EditorView {
    /// The line being typed.
    pub line: Seq<char>,
    /// The lines submitted so far.
    pub history: Seq<Seq<char>>,
    /// How many of them the history file holds.
    pub flushed: nat,
    /// How far back in the history the line was recalled from; 0 while the
    /// line is the user's own.
    pub recall: nat,
    /// Whether the bell has told the user that the line can be completed in
    /// more than one way.
    pub pending: bool,
}

/// The state of the line editor.
pub struct Editor {
    line: String,
    history: HistoryLog,
    recall: usize,
    pending: bool,
}

impl View for Editor {
    type V = EditorView;

    closed spec fn view(&self) -> EditorView {
        EditorView {
            line: self.line@,
            history: self.history@,
            flushed: self.history.flushed(),
            recall: self.recall as nat,
            pending: self.pending,
        }
    }
}

/// What a submission does. An empty line changes nothing and brings the
/// prompt back. Any other line goes to the end of the history and is handed
/// over; the editor starts a new line.
pub open spec fn submitted(e: EditorView) -> (EditorView, ReactionView) {
    if e.line.len() == 0 {
        (e, ReactionView::Prompt)
    } else {
        (
            EditorView {
                line: Seq::empty(),
                history: e.history.push(e.line),
                flushed: e.flushed,
                recall: 0,
                pending: false,
            },
            ReactionView::Submit(e.line),
        )
    }
}

/// What the tab key does, given the names that can be completed.
///
/// On an empty line, and on a line that no name begins with, the bell
/// sounds. Where the names that begin with the line share more than the line
/// and there are several of them, the line becomes what they share. Else,
/// with several names, the first tab sounds the bell and the second one
/// lists the names, sorted. With one name, the line becomes that name and a
/// space.
pub open spec fn tabbed(e: EditorView, names: Seq<Seq<char>>) -> (EditorView, ReactionView) {
    let found = candidates(names, e.line);
    let shared = lcp_of(found);
    if e.line.len() == 0 || found.len() == 0 {
        (e, ReactionView::Bell)
    } else if shared.len() > e.line.len() && found.len() > 1 && !same_ignoring_case(
        shared,
        e.line,
    ) {
        (EditorView { line: shared, ..e }, ReactionView::Redraw)
    } else if found.len() > 1 {
        if e.pending {
            (EditorView { pending: false, ..e }, ReactionView::List(found))
        } else {
            (EditorView { pending: true, ..e }, ReactionView::Bell)
        }
    } else {
        (EditorView { line: found[0] + " "@, ..e }, ReactionView::Redraw)
    }
}

/// What a key does to the editor, and what the terminal is to do after it.
///
/// A key that did not go down does nothing. Control with `c` ends the
/// session. The tab key completes. Enter, and control with `j`, submit the
/// line. Any other character goes to the end of the line. The up key recalls
/// the entry before the one shown, as long as there is one. The down key
/// goes back by one entry as long as an entry is shown: to the entry after
/// it, or, from the last entry, to an empty line that is the user's own
/// again. Backspace takes the last character from a line that has one. Any change
/// of the line but by the tab key forgets that the bell has sounded.
pub open spec fn stepped(e: EditorView, key: Key, names: Seq<Seq<char>>) -> (
    EditorView,
    ReactionView,
) {
    if !key.press {
        (e, ReactionView::Nothing)
    } else if key.control && key.code == KeyCode::Char('c') {
        (e, ReactionView::Quit)
    } else {
        match key.code {
            KeyCode::Tab => tabbed(e, names),
            KeyCode::Char(c) => if c == 'j' && key.control {
                submitted(e)
            } else {
                (EditorView { line: e.line.push(c), pending: false, ..e }, ReactionView::Echo(c))
            },
            KeyCode::Enter => submitted(e),
            KeyCode::Up => if e.recall < e.history.len() {
                (
                    EditorView {
                        line: e.history[e.history.len() - (e.recall + 1)],
                        recall: e.recall + 1,
                        pending: false,
                        ..e
                    },
                    ReactionView::Redraw,
                )
            } else {
                (e, ReactionView::Nothing)
            },
            KeyCode::Down => if 1 < e.recall <= e.history.len() {
                (
                    EditorView {
                        line: e.history[e.history.len() - (e.recall - 1)],
                        recall: (e.recall - 1) as nat,
                        pending: false,
                        ..e
                    },
                    ReactionView::Redraw,
                )
            } else if e.recall == 1 {
                (
                    EditorView { line: Seq::empty(), recall: 0, pending: false, ..e },
                    ReactionView::Redraw,
                )
            } else {
                (e, ReactionView::Nothing)
            },
            KeyCode::Backspace => if e.line.len() > 0 {
                (EditorView { line: e.line.drop_last(), pending: false, ..e }, ReactionView::Erase)
            } else {
                (e, ReactionView::Nothing)
            },
            KeyCode::Other => (e, ReactionView::Nothing),
        }
    }
}

/// The down key takes the cursor one step back, and not below 0, where the
/// line is the user's own; the cursor stays within the history, which the
/// key leaves as it is.
pub proof fn lemma_down_steps_back(e: EditorView, control: bool, names: Seq<Seq<char>>)
    requires
        e.recall <= e.history.len(),
    ensures
        ({
            let after = stepped(e, Key { code: KeyCode::Down, control: control, press: true }, names).0;
            &&& after.recall == if e.recall > 0 {
                e.recall - 1
            } else {
                0
            }
            &&& after.recall <= after.history.len()
            &&& after.history == e.history
            &&& e.recall >= 2 ==> after.line == e.history[e.history.len() - (e.recall - 1)]
            &&& e.recall == 1 ==> after.line == Seq::<char>::empty()
            &&& e.recall == 0 ==> after == e
        }),
{
}

/// A prefix that several names share and none of them extends: the first
/// tab sounds the bell and changes nothing but that it has sounded; the
/// second tab lists the names, sorted, with a space between neighbours, and
/// shows the prompt with the line as it was.
pub proof fn lemma_second_tab_lists(e: EditorView, names: Seq<Seq<char>>)
    requires
        e.line.len() > 0,
        !e.pending,
        candidates(names, e.line).len() >= 2,
        lcp_of(candidates(names, e.line)).len() <= e.line.len(),
    ensures
        tabbed(e, names) == (EditorView { pending: true, ..e }, ReactionView::Bell),
        tabbed(tabbed(e, names).0, names) == (e, ReactionView::List(candidates(names, e.line))),
        terminal_text(tabbed(tabbed(e, names).0, names).1, e.line) == "\r\n"@ + joined(
            candidates(names, e.line),
            " "@,
        ) + "\n$ "@ + e.line,
{
}

impl Editor {
    #[verifier::type_invariant]
    spec fn wf(self) -> bool {
        self.recall <= self.history@.len()
    }

    /// An editor with an empty line over the given history.
    pub fn new(history: HistoryLog) -> (editor: Self)
        ensures
            editor@ == (EditorView {
                line: Seq::empty(),
                history: history@,
                flushed: history.flushed(),
                recall: 0,
                pending: false,
            }),
    {
        Editor { line: String::new(), history, recall: 0, pending: false }
    }

    /// The line being typed.
    pub fn line(&self) -> (r: &String)
        ensures
            r@ == self@.line,
    {
        &self.line
    }

    /// The lines submitted so far.
    pub fn history(&self) -> (r: &HistoryLog)
        ensures
            r@ == self@.history,
            r.flushed() == self@.flushed,
    {
        &self.history
    }

    /// How far back in the history the line was recalled from.
    pub fn recall_cursor(&self) -> (r: usize)
        ensures
            r == self@.recall,
            r <= self@.history.len(),
    {
        proof {
            use_type_invariant(self);
        }
        self.recall
    }

    /// Whether the bell has told the user that the line can be completed in
    /// more than one way.
    pub fn completion_pending(&self) -> (r: bool)
        ensures
            r == self@.pending,
    {
        self.pending
    }

    /// Adds the lines of a file's text at the end of the history.
    pub fn load_history(&mut self, content: &str)
        ensures
            final(self)@ == (EditorView {
                history: old(self)@.history + lines_of(content@),
                ..old(self)@
            }),
    {
        proof {
            use_type_invariant(&*self);
        }
        let recall = self.recall;
        self.recall = 0;
        let mut history = HistoryLog::new();
        std::mem::swap(&mut history, &mut self.history);
        history.load(content);
        self.history = history;
        self.recall = recall;
    }

    /// Marks every entry of the history as held by the history file.
    pub fn mark_flushed(&mut self)
        ensures
            final(self)@ == (EditorView {
                flushed: old(self)@.history.len(),
                ..old(self)@
            }),
    {
        proof {
            use_type_invariant(&*self);
        }
        let recall = self.recall;
        self.recall = 0;
        let mut history = HistoryLog::new();
        std::mem::swap(&mut history, &mut self.history);
        history.mark_flushed();
        self.history = history;
        self.recall = recall;
    }

    /// Submits the line.
    fn submit(&mut self) -> (reaction: Reaction)
        ensures
            (final(self)@, reaction@) == submitted(old(self)@),
    {
        proof {
            use_type_invariant(&*self);
        }
        let cs = chars_of(self.line.as_str());
        if cs.len() == 0 {
            return Reaction::Prompt;
        }
        let mut line = String::new();
        std::mem::swap(&mut line, &mut self.line);
        self.recall = 0;
        self.pending = false;
        let mut history = HistoryLog::new();
        std::mem::swap(&mut history, &mut self.history);
        history.push(line.clone());
        self.history = history;
        Reaction::Submit(line)
    }

    /// Completes the line.
    fn tab(&mut self, commands: &CommandTable) -> (reaction: Reaction)
        ensures
            (final(self)@, reaction@) == tabbed(old(self)@, commands@),
    {
        proof {
            use_type_invariant(&*self);
        }
        let typed = chars_of(self.line.as_str());
        let found = commands.candidates(self.line.as_str());
        if typed.len() == 0 || found.len() == 0 {
            return Reaction::Bell;
        }
        let shared = lcp(found.clone());
        let shared_chars = chars_of(shared.as_str());
        if shared_chars.len() > typed.len() && found.len() > 1 && !eq_ignoring_case(
            shared.as_str(),
            self.line.as_str(),
        ) {
            self.line = shared;
            Reaction::Redraw
        } else if found.len() > 1 {
            if self.pending {
                self.pending = false;
                Reaction::List(found)
            } else {
                self.pending = true;
                Reaction::Bell
            }
        } else {
            let mut whole = chars_of(found[0].as_str());
            append_str(&mut whole, " ");
            self.line = string_of(&whole);
            Reaction::Redraw
        }
    }

    /// Takes a key: changes the editor as the key asks, and says what the
    /// terminal is to do.
    pub fn handle_key(&mut self, key: Key, commands: &CommandTable) -> (reaction: Reaction)
        ensures
            (final(self)@, reaction@) == stepped(old(self)@, key, commands@),
    {
        proof {
            use_type_invariant(&*self);
        }
        if !key.press {
            return Reaction::Nothing;
        }
        if key.control && key.code == KeyCode::Char('c') {
            return Reaction::Quit;
        }
        match key.code {
            KeyCode::Tab => self.tab(commands),
            KeyCode::Char(c) => {
                if c == 'j' && key.control {
                    self.submit()
                } else {
                    let mut line = String::new();
                    std::mem::swap(&mut line, &mut self.line);
                    line.push(c);
                    self.line = line;
                    self.pending = false;
                    Reaction::Echo(c)
                }
            },
            KeyCode::Enter => self.submit(),
            KeyCode::Up => {
                if self.recall < self.history.len() {
                    match self.history.recall(self.recall + 1) {
                        Some(entry) => {
                            self.recall = self.recall + 1;
                            self.line = entry;
                            self.pending = false;
                            Reaction::Redraw
                        },
                        None => Reaction::Nothing,
                    }
                } else {
                    Reaction::Nothing
                }
            },
            KeyCode::Down => {
                if self.recall > 1 {
                    match self.history.recall(self.recall - 1) {
                        Some(entry) => {
                            self.recall = self.recall - 1;
                            self.line = entry;
                            self.pending = false;
                            Reaction::Redraw
                        },
                        None => Reaction::Nothing,
                    }
                } else if self.recall == 1 {
                    self.recall = 0;
                    self.line = String::new();
                    self.pending = false;
                    Reaction::Redraw
                } else {
                    Reaction::Nothing
                }
            },
            KeyCode::Backspace => {
                let cs = chars_of(self.line.as_str());
                if cs.len() > 0 {
                    self.line = string_of_range(&cs, 0, cs.len() - 1);
                    self.pending = false;
                    Reaction::Erase
                } else {
                    Reaction::Nothing
                }
            },
            KeyCode::Other => Reaction::Nothing,
        }
    }
}

} // verus!
