//! The kinds of failure that the library tells apart.

use vstd::prelude::*;

verus! {

/// The kind of a failure, as an operating system call or a rule of the library
/// reports it.
#[derive(Clone, Copy, PartialEq, Eq, Structural, Debug)]
pub enum ErrorKind {
    /// The system does not know the requested operation.
    Unsupported,
    /// What was to be created is already there.
    AlreadyExists,
    /// An argument is not one that the operation can work on.
    InvalidInput,
    /// The data is not what the operation expects.
    InvalidData,
    /// Anything else.
    Other,
}

/// A failure of the file system: what kind it is of, and the error itself, which
/// is carried through unread.
#[derive(Debug)]
pub struct Fault<E> {
    pub kind: ErrorKind,
    pub error: E,
}

} // verus!
