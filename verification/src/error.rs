//! Error taxonomy of the library.
//!
//! Validation errors reject a request before any work is done, not-found
//! errors report an absent record, and dependency errors surface a failed
//! object-store or database call.  Operations never commit partial state
//! when they return an error.

use vstd::prelude::*;

verus! {

/// The three kinds of operation failure.
#[derive(Clone, Copy, PartialEq, Eq, Structural, Debug)]
pub enum ErrorKind {
    Validation,
    NotFound,
    Dependency,
}

/// An operation failure with its user-facing message.
#[derive(Debug, PartialEq, Eq)]
pub enum ContentError {
    /// The request itself is malformed and was rejected before any work.
    Validation(String),
    /// The addressed record does not exist.
    NotFound,
    /// An object-store or database call failed; nothing was committed.
    Dependency(String),
}

impl ContentError {
    /// The kind of this failure.
    pub open spec fn kind(&self) -> ErrorKind {
        match self {
            ContentError::Validation(_) => ErrorKind::Validation,
            ContentError::NotFound => ErrorKind::NotFound,
            ContentError::Dependency(_) => ErrorKind::Dependency,
        }
    }

    /// Executable form of `kind`.
    pub fn error_kind(&self) -> (r: ErrorKind)
        ensures
            r == self.kind(),
    {
        match self {
            ContentError::Validation(_) => ErrorKind::Validation,
            ContentError::NotFound => ErrorKind::NotFound,
            ContentError::Dependency(_) => ErrorKind::Dependency,
        }
    }

    /// The message carried by the error, empty for a bare not-found.
    pub fn message(&self) -> (r: &str)
        ensures
            match self {
                ContentError::Validation(m) => r@ == m@,
                ContentError::NotFound => true,
                ContentError::Dependency(m) => r@ == m@,
            },
    {
        match self {
            ContentError::Validation(m) => m.as_str(),
            ContentError::NotFound => "not found",
            ContentError::Dependency(m) => m.as_str(),
        }
    }
}

/// An upload request failure, as reported to the HTTP layer.
#[derive(Debug, PartialEq, Eq)]
pub enum UploadError {
    BadRequest(String),
    InternalServerError,
}

impl UploadError {
    /// The message a response for this error carries.
    pub fn response_message(&self) -> (r: &str)
        ensures
            match self {
                UploadError::BadRequest(m) => r@ == m@,
                UploadError::InternalServerError => true,
            },
    {
        match self {
            UploadError::BadRequest(m) => m.as_str(),
            UploadError::InternalServerError => "Internal Server Error",
        }
    }
}

} // verus!
