//! The application-wide error type and how each error is answered.

use vstd::prelude::*;
use vstd::string::*;

verus! {

/// The database driver's error type, carried through unchanged.
#[verifier::external_type_specification]
#[verifier::external_body]
pub struct ExSqlxError(sqlx::Error);

/// Calls the `Display` impl of `sqlx::Error`. Nothing is claimed of the text:
/// it depends on the driver's error value, which is opaque here.
#[verifier::external_body]
fn sqlx_error_text(e: &sqlx::Error) -> String {
    format!("{e}")
}

/// Application-wide error type.
#[derive(Debug)]
pub enum AppError {
    /// Database layer error.
    Db(sqlx::Error),
    /// Resource not found.
    NotFound,
    /// Authentication missing or invalid.
    Unauthorized,
    /// Client sent invalid data.
    BadRequest(String),
    /// Login locked out after too many failed attempts; carries the
    /// remaining lockout seconds.
    TooManyAttempts(u64),
    /// Unexpected internal failure.
    Internal(String),
}

/// Application-wide result alias.
pub type Result<T> = core::result::Result<T, AppError>;

impl AppError {
    /// The HTTP status code that answers this error.
    pub open spec fn status_of(&self) -> u16 {
        match self {
            AppError::NotFound => 404,
            AppError::Unauthorized => 401,
            AppError::BadRequest(_) => 400,
            AppError::TooManyAttempts(_) => 429,
            AppError::Db(_) => 500,
            AppError::Internal(_) => 500,
        }
    }

    /// The HTTP status code that answers this error.
    pub fn status_code(&self) -> (r: u16)
        ensures
            r == self.status_of(),
    {
        match self {
            AppError::NotFound => 404,
            AppError::Unauthorized => 401,
            AppError::BadRequest(_) => 400,
            AppError::TooManyAttempts(_) => 429,
            AppError::Db(_) => 500,
            AppError::Internal(_) => 500,
        }
    }

    /// The `retry_after` seconds that the response body carries, for a lockout only.
    pub fn retry_after(&self) -> (r: Option<u64>)
        ensures
            r == (match self {
                AppError::TooManyAttempts(secs) => Some(*secs),
                _ => None,
            }),
    {
        match self {
            AppError::TooManyAttempts(secs) => Some(*secs),
            _ => None,
        }
    }

    /// The human-readable text of the error (its display form).
    pub fn message(&self) -> (r: String)
        ensures
            match self {
                AppError::Db(_) => r@.len() >= 16 && r@.take(16) == "database error: "@,
                AppError::NotFound => r@ == "not found"@,
                AppError::Unauthorized => r@ == "unauthorized"@,
                AppError::BadRequest(m) => r@ == "bad request: "@ + m@,
                AppError::TooManyAttempts(_) => r@ == "too_many_attempts"@,
                AppError::Internal(m) => r@ == "internal error: "@ + m@,
            },
    {
        broadcast use vstd::string::group_string_axioms;
        match self {
            AppError::Db(e) => {
                let prefix = "database error: ";
                proof {
                    reveal_strlit("database error: ");
                }
                let r = prefix.to_string().concat(sqlx_error_text(e).as_str());
                assert(r@.take(16) == "database error: "@);
                r
            },
            AppError::NotFound => "not found".to_string(),
            AppError::Unauthorized => "unauthorized".to_string(),
            AppError::BadRequest(m) => "bad request: ".to_string().concat(m.as_str()),
            AppError::TooManyAttempts(_) => "too_many_attempts".to_string(),
            AppError::Internal(m) => "internal error: ".to_string().concat(m.as_str()),
        }
    }
}

} // verus!
