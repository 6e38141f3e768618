use vstd::prelude::*;

verus! {

/// A failure of a command: a stable machine-readable code, a message for
/// people, and whether trying again may succeed.
#[derive(Debug, PartialEq)]
pub struct AppError {
    pub code: String,
    pub message: String,
    pub retryable: bool,
}

/// Whether `e` is the error with this code and message that is not retryable.
pub open spec fn is_error(e: AppError, code: Seq<char>, message: Seq<char>) -> bool {
    e.code@ == code && e.message@ == message && !e.retryable
}

impl AppError {
    /// An error that is not worth retrying.
    pub fn new(code: &str, message: &str) -> (r: AppError)
        ensures
            is_error(r, code@, message@),
    {
        AppError { code: String::from_str(code), message: String::from_str(message), retryable: false }
    }

    /// An error after which the same request may succeed.
    pub fn retryable(code: &str, message: &str) -> (r: AppError)
        ensures
            r.code@ == code@,
            r.message@ == message@,
            r.retryable,
    {
        AppError { code: String::from_str(code), message: String::from_str(message), retryable: true }
    }
}

} // verus!
