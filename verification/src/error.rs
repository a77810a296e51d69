//! Errors of a transaction.

use vstd::prelude::*;

verus! {

/// What sort of thing went wrong.
#[derive(Debug, Clone, Copy, PartialEq, Eq, Structural)]
pub enum ErrorKind {
    /// A value that was to be committed, or that was read, is not valid.
    DataInvalid,
    /// The table is not in the state that the action asks for.
    PreconditionFailed,
    /// Something that the table format rules out.
    Unexpected,
}

/// An error of a transaction.
#[derive(Debug, Clone, PartialEq, Eq)]
pub struct Error {
    pub kind: ErrorKind,
    pub message: String,
}

impl Error {
    /// Whether the error is of this kind and says just this.
    pub open spec fn says(self, kind: ErrorKind, message: Seq<char>) -> bool {
        self.kind == kind && self.message@ == message
    }

    /// An error of the given kind with the given message.
    pub fn new(kind: ErrorKind, message: &str) -> (r: Error)
        ensures
            r.says(kind, message@),
    {
        Error { kind, message: message.to_owned() }
    }
}

} // verus!
