//! Single error type for the whole library. Commands and the terminal
//! interface return this.

use vstd::prelude::*;

use crate::text::{append, decimal, i64_text, to_owned_string};

verus! {

#[derive(Debug)]
pub enum TodoError {
    /// The persistence layer failed; the text says why.
    Storage(String),
    /// No task (or project) has this id.
    NotFound(i64),
    /// The request was refused; the text says why.
    Invalid(String),
    /// The platform offers no data directory for the database.
    NoDataDir,
    /// The terminal or the file system failed; the text says why.
    Io(String),
}

impl TodoError {
    /// The user-facing message of an error.
    pub open spec fn message_spec(&self) -> Seq<char> {
        match self {
            TodoError::Storage(m) => "storage failure: "@ + m@,
            TodoError::NotFound(id) => "task "@ + decimal(*id as int) + " not found"@,
            TodoError::Invalid(m) => "invalid input: "@ + m@,
            TodoError::NoDataDir => "could not locate data directory for this platform"@,
            TodoError::Io(m) => "terminal/IO failure: "@ + m@,
        }
    }

    /// The user-facing message of an error, as printed by the command line
    /// and shown in the terminal interface's status line.
    pub fn message(&self) -> (r: String)
        ensures
            r@ == self.message_spec(),
    {
        match self {
            TodoError::Storage(m) => {
                let mut s = to_owned_string("storage failure: ");
                append(&mut s, m.as_str());
                s
            },
            TodoError::NotFound(id) => {
                let mut s = to_owned_string("task ");
                let n = i64_text(*id);
                append(&mut s, n.as_str());
                append(&mut s, " not found");
                s
            },
            TodoError::Invalid(m) => {
                let mut s = to_owned_string("invalid input: ");
                append(&mut s, m.as_str());
                s
            },
            TodoError::NoDataDir => to_owned_string("could not locate data directory for this platform"),
            TodoError::Io(m) => {
                let mut s = to_owned_string("terminal/IO failure: ");
                append(&mut s, m.as_str());
                s
            },
        }
    }
}

} // verus!
