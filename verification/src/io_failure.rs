//! What the library reads of a failed system call.

use vstd::prelude::*;

verus! {

/// The kinds of failure that some rule tells apart.
#[derive(Clone, Copy, Debug, PartialEq, Eq, Structural)]
pub enum ErrorKind {
    NotFound,
    PermissionDenied,
    AlreadyExists,
    NotADirectory,
    Interrupted,
    WouldBlock,
    BrokenPipe,
    InvalidInput,
    InvalidData,
    UnexpectedEof,
    Unsupported,
    Other,
}

/// A failed system call: its kind, its text, and its number where it has one.
#[derive(Clone, Debug, PartialEq, Eq)]
pub struct IoFailure {
    pub kind: ErrorKind,
    pub message: String,
    pub os_error: Option<i32>,
}

/// The mathematical value of an [`IoFailure`].
pub struct IoFailureView {
    pub kind: ErrorKind,
    pub message: Seq<char>,
    pub os_error: Option<i32>,
}

impl View for IoFailure {
    type V = IoFailureView;

    open spec fn view(&self) -> IoFailureView {
        IoFailureView { kind: self.kind, message: self.message@, os_error: self.os_error }
    }
}

/// The mathematical value of the outcome of a system call.
pub open spec fn call_view<T>(outcome: Result<T, IoFailure>) -> Result<T, IoFailureView> {
    match outcome {
        Ok(value) => Ok(value),
        Err(source) => Err(source@),
    }
}

impl IoFailure {
    /// A failure without a system error number.
    pub fn new(kind: ErrorKind, message: &str) -> (failure: IoFailure)
        ensures
            failure@ == (IoFailureView { kind, message: message@, os_error: None }),
    {
        IoFailure { kind, message: message.to_owned(), os_error: None }
    }

    /// Whether the call may be made again.
    pub fn is_interrupted(&self) -> (result: bool)
        ensures
            result == (self@.kind == ErrorKind::Interrupted),
    {
        self.kind == ErrorKind::Interrupted
    }
}

} // verus!
