//! The store's error values.
use vstd::prelude::*;
use crate::text::{dup, to_chars, from_chars};

verus! {

#[derive(Debug)]
pub enum Error {
    /// No item with the given id.
    NotFound,
    /// A scratchpad's expected-revision guard failed.
    RevisionMismatch,
    /// A todo's `updated` stamp changed since the caller read it.
    ConcurrentEdit,
    /// A filesystem failure, described.
    Io(String),
    /// A JSON encoding failure, described.
    Json(String),
    /// Any other failure, described ("lock owned by X", "line range out of bounds").
    Other(String),
}

pub type Result<T> = std::result::Result<T, Error>;

/// The text an error displays as.
pub open spec fn error_text(e: Error) -> Seq<char> {
    match e {
        Error::NotFound => "not found"@,
        Error::RevisionMismatch => "revision mismatch"@,
        Error::ConcurrentEdit => "todo changed since read"@,
        Error::Io(m) => m@,
        Error::Json(m) => m@,
        Error::Other(m) => m@,
    }
}

impl Error {
    /// The message this error displays as.
    pub fn message(&self) -> (r: String)
        ensures
            r@ == error_text(*self),
    {
        match self {
            Error::NotFound => from_chars(&to_chars("not found")),
            Error::RevisionMismatch => from_chars(&to_chars("revision mismatch")),
            Error::ConcurrentEdit => from_chars(&to_chars("todo changed since read")),
            Error::Io(m) => dup(m),
            Error::Json(m) => dup(m),
            Error::Other(m) => dup(m),
        }
    }
}

/// What `format!("{:?}", s)` gives for a string with the given characters
/// (quoted, with escapes).
pub uninterp spec fn debug_text(s: Seq<char>) -> Seq<char>;

/// `format!("{:?}", s)`.
#[verifier::external_body]
pub(crate) fn debug_str(s: &str) -> (r: String)
    ensures
        r@ == debug_text(s@),
{
    format!("{s:?}")
}

} // verus!
