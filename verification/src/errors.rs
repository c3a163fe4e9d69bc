use vstd::prelude::*;

verus! {

/// The failure taxonomy of the library.
///
/// `InvalidCode` carries the offending character of a malformed short code;
/// `CodeOverflow` marks a code whose value does not fit the machine word;
/// `NotFound` marks a well-formed code with no active record behind it;
/// `Configuration` marks a rejected generator configuration, and
/// `Transient` a store or cache operation that could not complete.
#[derive(Clone, Copy, PartialEq, Eq, Structural, Debug)]
pub enum ErrorKind {
    InvalidCode(char),
    CodeOverflow,
    NotFound,
    Configuration,
    Transient,
}

/// An error surfaced to callers of the service functions.
#[derive(Clone, Copy, PartialEq, Eq, Structural, Debug)]
pub struct AppError {
    pub kind: ErrorKind,
}

impl AppError {
    pub fn invalid_code(c: char) -> (e: AppError)
        ensures
            e == (AppError { kind: ErrorKind::InvalidCode(c) }),
    {
        AppError { kind: ErrorKind::InvalidCode(c) }
    }

    pub fn not_found() -> (e: AppError)
        ensures
            e == (AppError { kind: ErrorKind::NotFound }),
    {
        AppError { kind: ErrorKind::NotFound }
    }
}

} // verus!
