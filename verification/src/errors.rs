//! The daemon's error taxonomy.
//!
//! Every operation-level failure is reported to the caller as one of these
//! kinds together with a human-readable message; none of them is fatal to
//! the daemon itself.

use vstd::prelude::*;

verus! {

/// The closed set of failure kinds an operation can report.
#[derive(Clone, Copy, PartialEq, Eq, Structural, Debug)]
pub enum ErrorKind {
    /// An unknown worker or run id.
    NotFound,
    /// A malformed start-worker specification.
    Validation,
    /// The operating system failed to launch a process.
    Spawn,
    /// An operation that is not valid for the current lifecycle state.
    InvalidState,
    /// A log-file or persistence failure.
    Io,
    /// An inconsistency right after a state change, such as a spawned
    /// process without an observable pid.
    Conflict,
}

/// An operation-level error: a kind plus a human-readable message.
#[derive(Debug)]
pub struct DaemonError {
    pub kind: ErrorKind,
    pub message: String,
}

impl DaemonError {
    /// Build an error of the given kind.
    pub fn new(kind: ErrorKind, message: String) -> (e: DaemonError)
        ensures
            e.kind == kind,
            e.message@ == message@,
    {
        DaemonError { kind, message }
    }

    /// The human-readable message, for callers that only report.
    pub fn message_string(&self) -> (m: String)
        ensures
            m@ == self.message@,
    {
        let m: String = self.message.clone();
        m
    }
}

impl Clone for DaemonError {
    fn clone(&self) -> (e: Self)
        ensures
            e.kind == self.kind,
            e.message@ == self.message@,
    {
        DaemonError { kind: self.kind, message: self.message.clone() }
    }
}

} // verus!
