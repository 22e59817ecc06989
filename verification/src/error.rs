//! Failures as the program reports them: a kind that decisions rest on, and a message for people.

use vstd::prelude::*;

verus! {

/// The kinds of failure that the relay tells apart; every other kind is `Other`.
#[derive(Clone, Copy, Debug, PartialEq, Eq, Structural)]
pub enum ErrorKind {
    TimedOut,
    InvalidData,
    InvalidInput,
    UnexpectedEof,
    BrokenPipe,
    ConnectionReset,
    ConnectionAborted,
    AlreadyExists,
    AddrNotAvailable,
    Other,
}

/// A failure with its kind and its message.
#[derive(Clone, Debug)]
pub struct IoError {
    pub kind: ErrorKind,
    pub message: String,
}

impl IoError {
    /// A failure of a kind with a message.
    pub fn new(kind: ErrorKind, message: &str) -> (error: IoError)
        ensures
            error.kind == kind,
            error.message@ == message@,
    {
        IoError { kind, message: message.to_owned() }
    }
}

} // verus!
