//! The error taxonomy of the service: missing entities, duplicate
//! creates, malformed input, and backing-store failures.

use vstd::prelude::*;

verus! {

/// Why an operation failed.
#[derive(Debug)]
pub enum ApiError {
    /// The named entity does not exist (or, for resolution, is inactive).
    NotFound(String),
    /// A create collided with an entity that already exists.
    Conflict(String),
    /// The input is malformed: bad identifier text, bad shape.
    InvalidData(String),
    /// The caller is not authenticated.
    Unauthorized,
    /// The backing store failed; never retried here.
    InternalError(String),
}

impl ApiError {
    /// The HTTP status that the error maps to.
    pub fn status_code(&self) -> (r: u16)
        ensures
            r == match self {
                ApiError::NotFound(_) => 404u16,
                ApiError::Conflict(_) => 409u16,
                ApiError::InvalidData(_) => 400u16,
                ApiError::Unauthorized => 401u16,
                ApiError::InternalError(_) => 500u16,
            },
    {
        match self {
            ApiError::NotFound(_) => 404,
            ApiError::Conflict(_) => 409,
            ApiError::InvalidData(_) => 400,
            ApiError::Unauthorized => 401,
            ApiError::InternalError(_) => 500,
        }
    }

    /// The stable machine-readable code of the error.
    pub fn code(&self) -> (r: String)
        ensures
            r@ == match self {
                ApiError::NotFound(_) => "NOT_FOUND"@,
                ApiError::Conflict(_) => "CONFLICT"@,
                ApiError::InvalidData(_) => "INVALID_DATA"@,
                ApiError::Unauthorized => "UNAUTHORIZED"@,
                ApiError::InternalError(_) => "INTERNAL_ERROR"@,
            },
    {
        match self {
            ApiError::NotFound(_) => String::from_str("NOT_FOUND"),
            ApiError::Conflict(_) => String::from_str("CONFLICT"),
            ApiError::InvalidData(_) => String::from_str("INVALID_DATA"),
            ApiError::Unauthorized => String::from_str("UNAUTHORIZED"),
            ApiError::InternalError(_) => String::from_str("INTERNAL_ERROR"),
        }
    }

    /// The human-readable message carried by the error, if any.
    pub fn message(&self) -> (r: String)
        ensures
            r@ == match self {
                ApiError::NotFound(m) => m@,
                ApiError::Conflict(m) => m@,
                ApiError::InvalidData(m) => m@,
                ApiError::Unauthorized => "unauthorized"@,
                ApiError::InternalError(m) => m@,
            },
    {
        match self {
            ApiError::NotFound(m) => m.clone(),
            ApiError::Conflict(m) => m.clone(),
            ApiError::InvalidData(m) => m.clone(),
            ApiError::Unauthorized => String::from_str("unauthorized"),
            ApiError::InternalError(m) => m.clone(),
        }
    }
}

/// The machine code and message of one reported error.
#[derive(Debug)]
pub struct ErrorDetail {
    pub code: String,
    pub message: String,
}

/// The wire shape of an error reply.
#[derive(Debug)]
pub struct ErrorResponse {
    pub error: ErrorDetail,
}

impl ErrorResponse {
    /// A not-found reply: status 404 with code `NOT_FOUND`.
    pub fn not_found(message: String) -> (r: (u16, ErrorResponse))
        ensures
            r.0 == 404,
            r.1.error.code@ == "NOT_FOUND"@,
            r.1.error.message@ == message@,
    {
        (404, ErrorResponse { error: ErrorDetail { code: String::from_str("NOT_FOUND"), message } })
    }

    /// An internal-error reply: status 500 with code `INTERNAL_ERROR`.
    pub fn internal_error(message: String) -> (r: (u16, ErrorResponse))
        ensures
            r.0 == 500,
            r.1.error.code@ == "INTERNAL_ERROR"@,
            r.1.error.message@ == message@,
    {
        (
            500,
            ErrorResponse {
                error: ErrorDetail { code: String::from_str("INTERNAL_ERROR"), message },
            },
        )
    }
}

} // verus!
