//! Errors answered to HTTP clients: a status and a `detail` message.

use vstd::prelude::*;

verus! {

/// An error answer: the kind selects the HTTP status, the text is the
/// `detail` shown to the client.
#[derive(Debug)]
pub enum AppError {
    NotFound(String),
    BadRequest(String),
    Conflict(String),
    Internal(String),
}

/// The HTTP status of an error answer.
pub open spec fn status_code_spec(e: AppError) -> u16 {
    match e {
        AppError::NotFound(_) => 404,
        AppError::BadRequest(_) => 400,
        AppError::Conflict(_) => 409,
        AppError::Internal(_) => 500,
    }
}

/// The `detail` message of an error answer.
pub open spec fn detail_spec(e: AppError) -> Seq<char> {
    match e {
        AppError::NotFound(m) => m@,
        AppError::BadRequest(m) => m@,
        AppError::Conflict(m) => m@,
        AppError::Internal(m) => m@,
    }
}

impl AppError {
    /// The HTTP status of this answer.
    pub fn status_code(&self) -> (r: u16)
        ensures
            r == status_code_spec(*self),
    {
        match self {
            AppError::NotFound(_) => 404,
            AppError::BadRequest(_) => 400,
            AppError::Conflict(_) => 409,
            AppError::Internal(_) => 500,
        }
    }

    /// The `detail` message of this answer.
    pub fn detail(&self) -> (r: &str)
        ensures
            r@ == detail_spec(*self),
    {
        match self {
            AppError::NotFound(m) => m.as_str(),
            AppError::BadRequest(m) => m.as_str(),
            AppError::Conflict(m) => m.as_str(),
            AppError::Internal(m) => m.as_str(),
        }
    }
}

} // verus!
