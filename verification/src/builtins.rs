//! The commands that the shell carries out itself.

use vstd::prelude::*;
use crate::text::text_eq;

verus! {

/// A command that the shell carries out itself.
#[derive(Clone, Copy, PartialEq, Eq, Debug, Structural)]
pub enum Builtin {
    Exit,
    Echo,
    Type,
    Pwd,
    Cd,
    History,
    /// `.`: stay in the current directory.
    Here,
    /// `..`: go to the parent directory.
    Parent,
}

/// The builtin that a command name stands for, if it is one.
pub open spec fn builtin_of(name: Seq<char>) -> Option<Builtin> {
    if name == "exit"@ {
        Some(Builtin::Exit)
    } else if name == "echo"@ {
        Some(Builtin::Echo)
    } else if name == "type"@ {
        Some(Builtin::Type)
    } else if name == "pwd"@ {
        Some(Builtin::Pwd)
    } else if name == "cd"@ {
        Some(Builtin::Cd)
    } else if name == "history"@ {
        Some(Builtin::History)
    } else if name == "."@ {
        Some(Builtin::Here)
    } else if name == ".."@ {
        Some(Builtin::Parent)
    } else {
        None
    }
}

/// The builtin that a command name stands for, if it is one.
pub fn classify(name: &str) -> (r: Option<Builtin>)
    ensures
        r == builtin_of(name@),
{
    if text_eq(name, "exit") {
        Some(Builtin::Exit)
    } else if text_eq(name, "echo") {
        Some(Builtin::Echo)
    } else if text_eq(name, "type") {
        Some(Builtin::Type)
    } else if text_eq(name, "pwd") {
        Some(Builtin::Pwd)
    } else if text_eq(name, "cd") {
        Some(Builtin::Cd)
    } else if text_eq(name, "history") {
        Some(Builtin::History)
    } else if text_eq(name, ".") {
        Some(Builtin::Here)
    } else if text_eq(name, "..") {
        Some(Builtin::Parent)
    } else {
        None
    }
}

/// Whether a command name is that of a builtin.
pub fn is_builtin(name: &str) -> (r: bool)
    ensures
        r == builtin_of(name@) is Some,
{
    classify(name).is_some()
}

/// The names of the builtins.
pub open spec fn builtin_name_list() -> Seq<Seq<char>> {
    seq!["exit"@, "echo"@, "type"@, "pwd"@, "cd"@, "history"@, "."@, ".."@]
}

/// The names of the builtins.
pub fn builtin_names() -> (names: Vec<String>)
    ensures
        names.deep_view() == builtin_name_list(),
        forall|i: int| 0 <= i < names.len() ==> builtin_of(#[trigger] names.deep_view()[i]) is Some,
{
    let mut names: Vec<String> = Vec::new();
    names.push("exit".to_string());
    names.push("echo".to_string());
    names.push("type".to_string());
    names.push("pwd".to_string());
    names.push("cd".to_string());
    names.push("history".to_string());
    names.push(".".to_string());
    names.push("..".to_string());
    assert(names.deep_view() =~= builtin_name_list());
    names
}

} // verus!
