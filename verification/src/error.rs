//! Errors that the HTTP layer turns into responses.

use vstd::prelude::*;

verus! {

/// An error with the HTTP status class it is answered with and a message.
#[derive(Debug)]
pub enum AppError {
    /// 400: the request cannot be served as sent.
    BadRequest(String),
    /// 404: the addressed resource does not exist or is not active.
    NotFound(String),
    /// 503: a backing service is missing or failing.
    ServiceUnavailable(String),
    /// 500: an unexpected failure.
    InternalError(String),
}

/// The status class of an [`AppError`], without its message.
#[derive(Debug, Clone, Copy, PartialEq, Eq)]
pub enum AppErrorKind {
    BadRequest,
    NotFound,
    ServiceUnavailable,
    InternalError,
}

impl View for AppError {
    type V = (AppErrorKind, Seq<char>);

    open spec fn view(&self) -> (AppErrorKind, Seq<char>) {
        match self {
            AppError::BadRequest(m) => (AppErrorKind::BadRequest, m@),
            AppError::NotFound(m) => (AppErrorKind::NotFound, m@),
            AppError::ServiceUnavailable(m) => (AppErrorKind::ServiceUnavailable, m@),
            AppError::InternalError(m) => (AppErrorKind::InternalError, m@),
        }
    }
}

} // verus!
