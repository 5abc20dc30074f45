//! The ways in which a request can fail.

use vstd::prelude::*;

verus! {

/// Why a request was not served.
#[derive(Debug, PartialEq, Eq)]
pub enum ServiceError {
    /// The text to shorten is no absolute URL. Carries the parser's message.
    InvalidInput(String),
    /// No long URL is known under the id.
    NotFound,
    /// The mapping store failed or refused a row. Carries its message.
    PersistenceError(String),
}

/// A `ServiceError` as contracts see it.
pub enum Failure {
    InvalidInput(Seq<char>),
    NotFound,
    PersistenceError(Seq<char>),
}

impl Failure {
    /// The HTTP status that reports the failure.
    pub open spec fn status_code(self) -> int {
        match self {
            Failure::InvalidInput(_) => 422,
            Failure::NotFound => 404,
            Failure::PersistenceError(_) => 500,
        }
    }
}

impl View for ServiceError {
    type V = Failure;

    open spec fn view(&self) -> Failure {
        match self {
            ServiceError::InvalidInput(message) => Failure::InvalidInput(message@),
            ServiceError::NotFound => Failure::NotFound,
            ServiceError::PersistenceError(message) => Failure::PersistenceError(message@),
        }
    }
}

impl ServiceError {
    /// The HTTP status that reports the failure: 422 for a text that is no
    /// URL, 404 for an unknown id, 500 for a failure of the store.
    pub fn status_code(&self) -> (code: u16)
        ensures
            code == self@.status_code(),
    {
        match self {
            ServiceError::InvalidInput(_) => 422,
            ServiceError::NotFound => 404,
            ServiceError::PersistenceError(_) => 500,
        }
    }
}

impl Clone for ServiceError {
    fn clone(&self) -> (copy: Self)
        ensures
            copy@ == self@,
    {
        match self {
            ServiceError::InvalidInput(message) => ServiceError::InvalidInput(message.clone()),
            ServiceError::NotFound => ServiceError::NotFound,
            ServiceError::PersistenceError(message) => ServiceError::PersistenceError(
                message.clone(),
            ),
        }
    }
}

} // verus!
