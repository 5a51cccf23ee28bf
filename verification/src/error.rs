//! The error type that the library's fallible operations return.
use vstd::prelude::*;

verus! {

/// The category of a failure, mirroring the kinds of `std::io::ErrorKind` that the tool uses.
#[derive(Debug, Clone, Copy, PartialEq, Eq, Structural)]
pub enum ErrorKind {
    InvalidInput,
    NotFound,
    AlreadyExists,
    Other,
}

/// A failure with its category and the message shown to the user.
#[derive(Debug, Clone, PartialEq, Eq)]
pub struct DigError {
    pub kind: ErrorKind,
    pub message: String,
}

impl DigError {
    pub fn new(kind: ErrorKind, message: String) -> (e: DigError)
        ensures
            e.kind == kind,
            e.message@ == message@,
    {
        DigError { kind, message }
    }

    pub fn kind(&self) -> (k: ErrorKind)
        ensures
            k == self.kind,
    {
        self.kind
    }

    /// The message shown to the user.
    pub fn to_string(&self) -> (s: String)
        ensures
            s@ == self.message@,
    {
        self.message.clone()
    }
}

/// Builds `prefix + middle + suffix` as a message.
pub fn message3(prefix: &str, middle: &str, suffix: &str) -> (s: String)
    ensures
        s@ == prefix@ + middle@ + suffix@,
{
    let mut s = String::from_str(prefix);
    s.append(middle);
    s.append(suffix);
    s
}

/// How a git command ended: its exit code, or none when a signal ended it.
#[derive(Debug, Clone, Copy, PartialEq, Eq)]
pub struct CommandStatus {
    pub code: Option<i32>,
}

impl CommandStatus {
    pub open spec fn is_success(self) -> bool {
        self.code == Some(0i32)
    }

    pub fn success(&self) -> (r: bool)
        ensures
            r == self.is_success(),
    {
        match self.code {
            Some(c) => c == 0,
            None => false,
        }
    }

    /// The status of a command that exited with code 0.
    pub fn success_status() -> (s: CommandStatus)
        ensures
            s.is_success(),
    {
        CommandStatus { code: Some(0) }
    }
}

} // verus!
