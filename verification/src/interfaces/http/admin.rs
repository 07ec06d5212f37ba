//! Admin (Author-facing) decisions: title validation, password checking and the
//! answers to lookups and deletions.

use argon2::PasswordVerifier;
use vstd::prelude::*;
use vstd::string::*;
use crate::domain::article::Article;
use crate::error::AppError;
use crate::text::{blank, is_blank};

verus! {

/// What `argon2::PasswordHash::new` reports for a configured hash: `None` when it
/// parses as a PHC string, else the text of the parse error.
pub uninterp spec fn phc_parse_error(hash: Seq<char>) -> Option<Seq<char>>;

/// Whether Argon2 (with default settings, no secret) accepts `password` for the
/// PHC string `hash`: rehashing the password with the hash's algorithm,
/// version, parameters and salt gives the hash's output.
pub uninterp spec fn password_verifies(password: Seq<char>, hash: Seq<char>) -> bool;

/// Calls `argon2::PasswordHash::new` (from `password-hash`) on the configured
/// hash and returns the error's text when it does not parse. Trusted: the
/// result is `phc_parse_error` of the hash; the source refuses an empty string
/// and one whose first field is not empty (one that does not start with `$`).
#[verifier::external_body]
fn phc_error(hash: &str) -> (r: Option<String>)
    ensures
        match r {
            Some(t) => phc_parse_error(hash@) == Some(t@),
            None => phc_parse_error(hash@) is None,
        },
        hash@.len() == 0 || hash@[0] != '$' ==> r is Some,
{
    match argon2::PasswordHash::new(hash) {
        Ok(_) => None,
        Err(e) => Some(e.to_string()),
    }
}

/// Calls `Argon2::default().verify_password` on the password's bytes and the
/// parsed hash. Trusted: the result is `password_verifies`, which depends on
/// the two strings alone. Not stated: the hash's memory cost decides how much
/// memory the check allocates; a configured hash with an enormous cost can
/// exhaust memory.
#[verifier::external_body]
fn argon2_accepts(password: &str, hash: &str) -> (r: bool)
    requires
        phc_parse_error(hash@) is None,
    ensures
        r == password_verifies(password@, hash@),
{
    match argon2::PasswordHash::new(hash) {
        Ok(parsed) => argon2::Argon2::default().verify_password(password.as_bytes(), &parsed).is_ok(),
        Err(_) => false,
    }
}

/// Check a login password against the configured Argon2 PHC hash.
///
/// # Errors
/// Returns `AppError::Internal` when the configured hash is not a valid PHC
/// string, `AppError::Unauthorized` on a wrong password.
pub fn check_password(password: &str, password_hash: &str) -> (r: Result<(), AppError>)
    ensures
        match phc_parse_error(password_hash@) {
            Some(t) => r matches Err(AppError::Internal(m)) && m@ == "invalid ZBLOG_PASSWORD_HASH: "@ + t,
            None => if password_verifies(password@, password_hash@) {
                r is Ok
            } else {
                r matches Err(AppError::Unauthorized)
            },
        },
{
    broadcast use vstd::string::group_string_axioms;
    match phc_error(password_hash) {
        Some(t) => Err(AppError::Internal("invalid ZBLOG_PASSWORD_HASH: ".to_string().concat(t.as_str()))),
        None => {
            if argon2_accepts(password, password_hash) {
                Ok(())
            } else {
                Err(AppError::Unauthorized)
            }
        },
    }
}

/// A new or edited article needs a title that is not blank.
///
/// # Errors
/// Returns `AppError::BadRequest` when the title trims to nothing.
pub fn require_title(title: &str) -> (r: Result<(), AppError>)
    ensures
        r is Ok <==> !is_blank(title@),
        r matches Err(e) ==> (e matches AppError::BadRequest(m) && m@ == "title must not be empty"@),
{
    broadcast use vstd::string::group_string_axioms;
    if blank(title) {
        Err(AppError::BadRequest("title must not be empty".to_string()))
    } else {
        Ok(())
    }
}

/// The article of an admin lookup, or `NotFound`.
///
/// # Errors
/// Returns `AppError::NotFound` when nothing was found.
pub fn found_or_not_found(found: Option<Article>) -> (r: Result<Article, AppError>)
    ensures
        match found {
            Some(a) => r == Ok::<Article, AppError>(a),
            None => r matches Err(AppError::NotFound),
        },
{
    match found {
        Some(a) => Ok(a),
        None => Err(AppError::NotFound),
    }
}

/// The answer to a deletion that removed `rows` rows.
///
/// # Errors
/// Returns `AppError::NotFound` when no row was removed.
pub fn deletion_result(rows: u64) -> (r: Result<(), AppError>)
    ensures
        rows == 0 ==> r matches Err(AppError::NotFound),
        rows > 0 ==> r is Ok,
{
    if rows == 0 {
        Err(AppError::NotFound)
    } else {
        Ok(())
    }
}

} // verus!
