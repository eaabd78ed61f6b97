//! Failures of the file system, as the callers of this library report them.

use vstd::prelude::*;

verus! {

/// What kind of failure the operating system reported, as far as the
/// decisions of this library depend on it.
#[derive(Clone, Copy, Debug, PartialEq, Eq, Structural)]
pub enum IoFailureKind {
    NotFound,
    AlreadyExists,
    IsADirectory,
    Other,
}

/// A failed file operation: its kind and the system's message.
#[derive(Clone, Debug, PartialEq, Eq)]
pub struct IoFailure {
    pub kind: IoFailureKind,
    pub message: String,
}

} // verus!
