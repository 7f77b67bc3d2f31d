//! The error taxonomy shared by every operation of the library, with its
//! mapping to HTTP status codes.

use vstd::prelude::*;

verus! {

/// A field name paired with the messages explaining why it was rejected.
pub type FieldErrors = Vec<(String, String)>;

/// Every failure an operation of this library can report.
#[derive(Debug)]
pub enum Error {
    /// The request carries no usable identity.
    Unauthorized,
    /// The action is recognized but disallowed (for example a self-follow).
    Forbidden,
    /// A referenced slug, username or identifier does not resolve.
    NotFound,
    /// The request body fails a validation rule; each entry names the
    /// offending field and a message.
    UnprocessableEntity { errors: FieldErrors },
    /// An unexpected internal failure, reported opaquely to the caller.
    Internal,
}

impl Error {
    /// Builds an `UnprocessableEntity` from field/message pairs.
    pub fn unprocessable_entity(errors: FieldErrors) -> (r: Error)
        ensures
            r == (Error::UnprocessableEntity { errors }),
    {
        Error::UnprocessableEntity { errors }
    }

    /// The HTTP status code this error maps to.
    pub fn status_code(&self) -> (code: u16)
        ensures
            code == self.spec_status_code(),
    {
        match self {
            Error::Unauthorized => 401,
            Error::Forbidden => 403,
            Error::NotFound => 404,
            Error::UnprocessableEntity { .. } => 422,
            Error::Internal => 500,
        }
    }

    /// The status-code mapping: 401, 403, 404, 422, and 500 for internal
    /// failures.
    pub open spec fn spec_status_code(&self) -> u16 {
        match self {
            Error::Unauthorized => 401,
            Error::Forbidden => 403,
            Error::NotFound => 404,
            Error::UnprocessableEntity { .. } => 422,
            Error::Internal => 500,
        }
    }
}

} // verus!
