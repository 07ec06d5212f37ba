//! Blog backend library: article rules, slugs, login throttling and site routing.

pub mod config;
pub mod domain;
pub mod error;
pub mod infrastructure;
pub mod interfaces;
pub mod text;
