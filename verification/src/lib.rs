//! The logic of a small interactive command shell: how a line is split into
//! words, where its output goes, what each builtin answers, how a pipeline is
//! laid out, and how the line editor reacts to each key.

pub mod text;
pub mod redirection;
pub mod builtins;
pub mod words;
pub mod lookup;
pub mod order;
pub mod utils;
pub mod number;
pub mod history;
pub mod dispatch;
pub mod pipeline;
pub mod completion;
pub mod editor;
pub mod shell;
