//! The errors that a command can end in.
use crate::text::from_chars;
use crate::text::push_str;
use crate::text::to_chars;
use vstd::prelude::*;

verus! {

/// What went wrong, in kind.
#[derive(Clone, Copy, Debug, PartialEq, Eq, Structural)]
pub enum ErrorKind {
    /// An unknown category or action, or too few arguments.
    InvalidCommand,
    /// No shell configuration file, or a relative path that leads nowhere.
    NotFound,
    /// An alias of that name is recorded already.
    DuplicateEntry,
    /// Reading, writing or spawning failed.
    Io,
    /// A line announces an alias and holds no `=` behind its first word.
    Malformed,
}

/// An error: its kind, and the message shown to the user.
#[derive(Debug)]
pub struct CommandError {
    pub kind: ErrorKind,
    pub message: String,
}

/// A `CommandError` as a plain value.
pub ghost struct ErrorView {
    pub kind: ErrorKind,
    pub message: Seq<char>,
}

impl View for CommandError {
    type V = ErrorView;

    open spec fn view(&self) -> ErrorView {
        ErrorView { kind: self.kind, message: self.message@ }
    }
}

/// `e` with `context` put in front of its message.
pub open spec fn in_context(context: Seq<char>, e: ErrorView) -> ErrorView {
    ErrorView { kind: e.kind, message: context + e.message }
}

impl CommandError {
    /// An error of the given kind with the given message.
    pub fn new(kind: ErrorKind, message: &str) -> (e: CommandError)
        ensures
            e@ == (ErrorView { kind, message: message@ }),
    {
        CommandError { kind, message: message.to_owned() }
    }

    /// The kind of this error.
    pub fn kind(&self) -> (kind: ErrorKind)
        ensures
            kind == self@.kind,
    {
        self.kind
    }

    /// The message of this error.
    pub fn to_string(&self) -> (message: String)
        ensures
            message@ == self@.message,
    {
        self.message.clone()
    }

    /// The same error, with `context` in front of its message.
    pub fn context(self, context: &str) -> (e: CommandError)
        ensures
            e@ == in_context(context@, self@),
    {
        let mut message = to_chars(context);
        push_str(&mut message, self.message.as_str());
        CommandError { kind: self.kind, message: from_chars(&message) }
    }
}

} // verus!
