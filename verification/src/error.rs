//! The error type shared by every fallible operation of the library.
use vstd::prelude::*;

verus! {

/// Why an operation was refused or failed.
#[derive(Debug, Clone, PartialEq, Eq)]
pub enum GoopError {
    /// The request or its input cannot be honoured; the message says why.
    InvalidRequest(String),
    /// The operation was cancelled by its caller.
    Cancelled,
    /// A helper program or native component failed.
    SubprocessFailed { binary: String, stderr: String },
    /// Reading or writing a file failed.
    Io(String),
    /// Structured input could not be parsed.
    Parse(String),
    /// A sample preview cannot be produced for this source; the message says why.
    PreviewUnavailable(String),
}

/// An `InvalidRequest` error carrying `message`.
pub fn invalid(message: &str) -> (e: GoopError)
    ensures
        e matches GoopError::InvalidRequest(m) && m@ == message@,
{
    GoopError::InvalidRequest(crate::text::owned(message))
}

/// An `InvalidRequest` error taking ownership of `message`.
pub fn invalid_owned(message: String) -> (e: GoopError)
    ensures
        e matches GoopError::InvalidRequest(m) && m@ == message@,
{
    GoopError::InvalidRequest(message)
}

/// Whether `e` is an `InvalidRequest` whose message is `m`.
pub open spec fn is_invalid_with(e: GoopError, m: Seq<char>) -> bool {
    e matches GoopError::InvalidRequest(x) && x@ == m
}

impl GoopError {
    /// An exact copy of this error.
    pub fn copy(&self) -> (r: GoopError)
        ensures
            r == *self,
    {
        match self {
            GoopError::InvalidRequest(m) => GoopError::InvalidRequest(m.clone()),
            GoopError::Cancelled => GoopError::Cancelled,
            GoopError::SubprocessFailed { binary, stderr } => GoopError::SubprocessFailed {
                binary: binary.clone(),
                stderr: stderr.clone(),
            },
            GoopError::Io(m) => GoopError::Io(m.clone()),
            GoopError::Parse(m) => GoopError::Parse(m.clone()),
            GoopError::PreviewUnavailable(m) => GoopError::PreviewUnavailable(m.clone()),
        }
    }

    /// The text shown to a user for this error.
    pub fn user_message(&self) -> (m: String)
        ensures
            self matches GoopError::InvalidRequest(x) ==> m@ == x@,
            self matches GoopError::PreviewUnavailable(x) ==> m@ == x@,
    {
        match self {
            GoopError::InvalidRequest(m) => m.clone(),
            GoopError::Cancelled => crate::text::owned("Cancelled"),
            GoopError::SubprocessFailed { binary, stderr } => {
                let mut s = binary.clone();
                crate::text::push_str(&mut s, ": ");
                crate::text::push_str(&mut s, stderr.as_str());
                s
            },
            GoopError::Io(m) => m.clone(),
            GoopError::Parse(m) => m.clone(),
            GoopError::PreviewUnavailable(m) => m.clone(),
        }
    }
}

} // verus!
