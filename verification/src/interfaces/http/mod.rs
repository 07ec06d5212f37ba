//! HTTP interface decisions.

pub mod admin;
pub mod articles;
pub mod dto;
pub mod middleware;
pub mod pageviews;
pub mod session;
pub mod site;
pub mod stats;
