use vstd::prelude::*;

verus! {

/// Failures reported by the library.
///
/// The variants that wrap an outside failure (database, file system, JSON)
/// carry that failure's message as text, so the library never holds an
/// outside error value.
#[derive(Debug, Clone, PartialEq, Eq)]
pub enum Error {
    Database(String),
    Io(String),
    Json(String),
    NotFound(String),
    Validation(String),
    CycleDetected,
    NothingToUndo,
    NothingToRedo,
    InvalidOperation(String),
}

/// The validation error carrying `msg`.

/// `e` is a validation error whose message is `msg`.
pub open spec fn is_validation(e: Error, msg: Seq<char>) -> bool {
    e matches Error::Validation(m) && m@ == msg
}

/// `e` is a not-found error whose message is `msg`.
pub open spec fn is_not_found(e: Error, msg: Seq<char>) -> bool {
    e matches Error::NotFound(m) && m@ == msg
}

/// Builds a validation error from a message.
pub fn validation_error(msg: &str) -> (e: Error)
    ensures
        is_validation(e, msg@),
{
    Error::Validation(msg.to_owned())
}

/// Builds a not-found error from a message.
pub fn not_found_error(msg: String) -> (e: Error)
    ensures
        is_not_found(e, msg@),
{
    Error::NotFound(msg)
}

} // verus!
