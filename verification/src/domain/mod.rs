//! The blog's domain model: articles, pageviews and statistics.

pub mod article;
pub mod pageview;
pub mod stats;
