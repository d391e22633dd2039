//! Application error type.
//!
//! Every fallible core operation reports one of these kinds; the HTTP layer
//! maps them to status codes and a response envelope.

use vstd::prelude::*;

verus! {

/// Application error type.
#[derive(Debug)]
pub enum AppError {
    /// Authentication required
    Unauthorized(String),
    /// Resource not found
    NotFound(String),
    /// Validation error
    Validation(String),
    /// Optimistic concurrency conflict, carrying the authoritative version
    Conflict { message: String, current_version: i64 },
    /// Database error
    Database(String),
    /// Search index error
    Search(String),
    /// Internal server error
    Internal(String),
    /// Bad request
    BadRequest(String),
}

impl AppError {
    /// The HTTP status code this error maps to.
    pub fn status_code(&self) -> (r: u16)
        ensures
            r == match self {
                AppError::Unauthorized(_) => 401u16,
                AppError::NotFound(_) => 404u16,
                AppError::Validation(_) => 400u16,
                AppError::Conflict { .. } => 409u16,
                AppError::Database(_) => 500u16,
                AppError::Search(_) => 500u16,
                AppError::Internal(_) => 500u16,
                AppError::BadRequest(_) => 400u16,
            },
    {
        match self {
            AppError::Unauthorized(_) => 401,
            AppError::NotFound(_) => 404,
            AppError::Validation(_) => 400,
            AppError::Conflict { .. } => 409,
            AppError::Database(_) => 500,
            AppError::Search(_) => 500,
            AppError::Internal(_) => 500,
            AppError::BadRequest(_) => 400,
        }
    }

    /// The stable machine-readable code for this error.
    pub fn error_code(&self) -> (r: &'static str)
        ensures
            r@ == self.spec_error_code(),
    {
        match self {
            AppError::Unauthorized(_) => "UNAUTHORIZED",
            AppError::NotFound(_) => "NOT_FOUND",
            AppError::Validation(_) => "VALIDATION_ERROR",
            AppError::Conflict { .. } => "VERSION_MISMATCH",
            AppError::Database(_) => "DATABASE_ERROR",
            AppError::Search(_) => "SEARCH_ERROR",
            AppError::Internal(_) => "INTERNAL_ERROR",
            AppError::BadRequest(_) => "BAD_REQUEST",
        }
    }

    /// The code `error_code` returns, as a sequence of characters.
    pub open spec fn spec_error_code(&self) -> Seq<char> {
        match self {
            AppError::Unauthorized(_) => "UNAUTHORIZED"@,
            AppError::NotFound(_) => "NOT_FOUND"@,
            AppError::Validation(_) => "VALIDATION_ERROR"@,
            AppError::Conflict { .. } => "VERSION_MISMATCH"@,
            AppError::Database(_) => "DATABASE_ERROR"@,
            AppError::Search(_) => "SEARCH_ERROR"@,
            AppError::Internal(_) => "INTERNAL_ERROR"@,
            AppError::BadRequest(_) => "BAD_REQUEST"@,
        }
    }

    /// The human-readable message carried by this error.
    pub fn message(&self) -> (r: String)
        ensures
            r@ == self.spec_message(),
    {
        match self {
            AppError::Unauthorized(msg) => msg.clone(),
            AppError::NotFound(msg) => msg.clone(),
            AppError::Validation(msg) => msg.clone(),
            AppError::Conflict { message, .. } => message.clone(),
            AppError::Database(msg) => msg.clone(),
            AppError::Search(msg) => msg.clone(),
            AppError::Internal(msg) => msg.clone(),
            AppError::BadRequest(msg) => msg.clone(),
        }
    }

    /// The message carried by this error, as a sequence of characters.
    pub open spec fn spec_message(&self) -> Seq<char> {
        match self {
            AppError::Unauthorized(msg) => msg@,
            AppError::NotFound(msg) => msg@,
            AppError::Validation(msg) => msg@,
            AppError::Conflict { message, .. } => message@,
            AppError::Database(msg) => msg@,
            AppError::Search(msg) => msg@,
            AppError::Internal(msg) => msg@,
            AppError::BadRequest(msg) => msg@,
        }
    }
}

/// An error paired with the store revision current at the time it was raised,
/// so that every response can report the revision.
pub struct AppErrorWithRevision {
    pub error: AppError,
    pub revision_id: i64,
}

} // verus!
