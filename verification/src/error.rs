//! The error type shared by the library.

use vstd::prelude::*;

use crate::text::cat;

verus! {

/// What can go wrong while checking a push.
#[derive(Debug)]
pub enum JjHooksError {
    /// Reading or writing a file, or starting a process, failed.
    Io(String),
    /// Some text (command output, configuration) could not be understood.
    Parse(String),
    /// A `jj` or `git` command exited unsuccessfully.
    JjFailed { status: i32, stderr: String },
}

/// The text that describes an error to the user.
pub open spec fn error_message(e: JjHooksError) -> Seq<char> {
    match e {
        JjHooksError::Io(m) => "I/O error: "@ + m@,
        JjHooksError::Parse(m) => "parse error: "@ + m@,
        JjHooksError::JjFailed { status, stderr } => "command failed: "@ + stderr@,
    }
}

impl JjHooksError {
    /// The text that describes this error to the user.
    pub fn message(&self) -> (r: String)
        ensures
            r@ == error_message(*self),
    {
        match self {
            JjHooksError::Io(m) => cat("I/O error: ", m.as_str()),
            JjHooksError::Parse(m) => cat("parse error: ", m.as_str()),
            JjHooksError::JjFailed { status, stderr } => cat("command failed: ", stderr.as_str()),
        }
    }
}

} // verus!
