//! Classification of per-iteration outcomes.
//!
//! An iteration either succeeds, fails in a way that lets execution continue
//! (`GenericError`), or fails fatally for the whole scenario
//! (`TerminationError`).

use vstd::prelude::*;

verus! {

/// The error half of a per-iteration outcome.
#[derive(Debug, Clone)]
pub enum Error {
    /// The iteration failed; execution continues and the failure is reported
    /// through metrics and a display event.
    GenericError(String),
    /// The iteration failed fatally: the runner must cancel the current
    /// scenario and abort all subsequent scenarios.
    TerminationError(String),
}

impl Error {
    /// Build a generic, non-fatal error from its description.
    pub fn generic(message: String) -> (r: Error)
        ensures
            r == Error::GenericError(message),
    {
        Error::GenericError(message)
    }

    /// Build a fatal error from its description.
    pub fn termination(message: String) -> (r: Error)
        ensures
            r == Error::TerminationError(message),
    {
        Error::TerminationError(message)
    }

    /// Whether this error aborts the remaining execution plan.
    pub fn is_termination(&self) -> (r: bool)
        ensures
            r == (self is TerminationError),
    {
        match self {
            Error::TerminationError(_) => true,
            Error::GenericError(_) => false,
        }
    }

    /// The human-readable description carried by the error.
    pub fn message(&self) -> (r: &String)
        ensures
            r@ == self.message_view(),
    {
        match self {
            Error::GenericError(m) => m,
            Error::TerminationError(m) => m,
        }
    }

    /// The description carried by the error, as a sequence of characters.
    pub open spec fn message_view(&self) -> Seq<char> {
        match self {
            Error::GenericError(m) => m@,
            Error::TerminationError(m) => m@,
        }
    }
}

/// The outcome of one iteration of a virtual user's operation.
pub type UserResult = Result<(), Error>;

} // verus!
