//! The HTTP-facing decisions: request validation, session checks and static-site routing.

pub mod http;
