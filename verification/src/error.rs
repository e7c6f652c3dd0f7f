//! The error kinds that every operation of the core can return.
//!
//! Errors are classified at the point of detection and returned unchanged to
//! the caller; mapping them onto a transport is the caller's concern.

use vstd::prelude::*;

verus! {

/// Failure of a core operation.
///
/// `NotFound` names a missing report or user, `Forbidden` an ownership or
/// eligibility violation, `BadRequest` an illegal state transition or input,
/// and `Internal` a store-side failure such as an exhausted id sequence or a
/// counter that no longer fits its column.
#[derive(Debug)]
pub enum AppError {
    Auth(String),
    Validation(String),
    NotFound(String),
    Forbidden(String),
    Unauthorized,
    Internal(String),
    Email(String),
    Image(String),
    BadRequest(String),
    Conflict(String),
}

impl AppError {
    /// The human-readable message carried by the error, if any.
    pub fn message(&self) -> (m: String)
        ensures
            m@ == self.message_spec(),
    {
        match self {
            AppError::Auth(s) => s.clone(),
            AppError::Validation(s) => s.clone(),
            AppError::NotFound(s) => s.clone(),
            AppError::Forbidden(s) => s.clone(),
            AppError::Unauthorized => "Unauthorized".to_owned(),
            AppError::Internal(s) => s.clone(),
            AppError::Email(s) => s.clone(),
            AppError::Image(s) => s.clone(),
            AppError::BadRequest(s) => s.clone(),
            AppError::Conflict(s) => s.clone(),
        }
    }

    pub open spec fn message_spec(&self) -> Seq<char> {
        match self {
            AppError::Auth(s) => s@,
            AppError::Validation(s) => s@,
            AppError::NotFound(s) => s@,
            AppError::Forbidden(s) => s@,
            AppError::Unauthorized => "Unauthorized"@,
            AppError::Internal(s) => s@,
            AppError::Email(s) => s@,
            AppError::Image(s) => s@,
            AppError::BadRequest(s) => s@,
            AppError::Conflict(s) => s@,
        }
    }
}

} // verus!
