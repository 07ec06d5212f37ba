//! Runtime configuration from environment variables.
//!
//! Reading the environment happens outside the library; the values found (or
//! `None` for a missing variable) are handed to [`Config::from_vars`].

use vstd::prelude::*;
use vstd::string::*;
use crate::error::AppError;

verus! {

/// Default HTTP bind address.
pub open spec fn default_bind_addr() -> Seq<char> {
    "127.0.0.1:8080"@
}

/// Default database URL.
pub open spec fn default_database_url() -> Seq<char> {
    "sqlite:zblog.db"@
}

/// Runtime configuration.
#[derive(Debug, Clone)]
pub struct Config {
    /// Address the HTTP server binds to, e.g. `127.0.0.1:8080`.
    pub bind_addr: String,
    /// `SQLite` connection URL, e.g. `sqlite:zblog.db`.
    pub database_url: String,
    /// Argon2 PHC hash of the admin password.
    pub password_hash: String,
    /// Secret used to sign session cookies.
    pub session_secret: String,
}

/// The value of an optional variable, or its default.
pub open spec fn value_or(v: Option<String>, default: Seq<char>) -> Seq<char> {
    match v {
        Some(s) => s@,
        None => default,
    }
}

fn or_default(v: Option<String>, default: &str) -> (r: String)
    ensures
        r@ == value_or(v, default@),
{
    broadcast use vstd::string::group_string_axioms;
    match v {
        Some(s) => s,
        None => default.to_string(),
    }
}

fn missing(key: &str) -> (e: AppError)
    ensures
        e matches AppError::Internal(m) && m@ == "missing env var "@ + key@,
{
    broadcast use vstd::string::group_string_axioms;
    AppError::Internal("missing env var ".to_string().concat(key))
}

impl Config {
    /// Build the configuration from the values of `ZBLOG_BIND_ADDR`,
    /// `ZBLOG_DATABASE_URL`, `ZBLOG_PASSWORD_HASH` and `ZBLOG_SESSION_SECRET`
    /// (`None` for a variable that is not set). The first two have defaults.
    ///
    /// # Errors
    /// Returns `AppError::Internal` when a required variable is missing
    /// (the password hash is checked first).
    pub fn from_vars(
        bind_addr: Option<String>,
        database_url: Option<String>,
        password_hash: Option<String>,
        session_secret: Option<String>,
    ) -> (r: Result<Config, AppError>)
        ensures
            r is Ok <==> password_hash is Some && session_secret is Some,
            r matches Ok(c) ==> {
                &&& c.bind_addr@ == value_or(bind_addr, default_bind_addr())
                &&& c.database_url@ == value_or(database_url, default_database_url())
                &&& Some(c.password_hash) == password_hash
                &&& Some(c.session_secret) == session_secret
            },
            password_hash is None ==> (r matches Err(AppError::Internal(m))
                && m@ == "missing env var "@ + "ZBLOG_PASSWORD_HASH"@),
            password_hash is Some && session_secret is None ==> (r matches Err(AppError::Internal(m))
                && m@ == "missing env var "@ + "ZBLOG_SESSION_SECRET"@),
    {
        let bind_addr = or_default(bind_addr, "127.0.0.1:8080");
        let database_url = or_default(database_url, "sqlite:zblog.db");
        let password_hash = match password_hash {
            Some(v) => v,
            None => return Err(missing("ZBLOG_PASSWORD_HASH")),
        };
        let session_secret = match session_secret {
            Some(v) => v,
            None => return Err(missing("ZBLOG_SESSION_SECRET")),
        };
        Ok(Config { bind_addr, database_url, password_hash, session_secret })
    }
}

} // verus!
