//! Request payloads and queries, as plain values.

use vstd::prelude::*;

verus! {

/// Login payload.
#[derive(Debug, Clone)]
pub struct LoginRequest {
    /// Plaintext admin password.
    pub password: String,
}

/// Article creation payload (always creates a Draft).
#[derive(Debug, Clone)]
pub struct CreateArticleRequest {
    /// Article title.
    pub title: String,
    /// Markdown source.
    pub markdown: String,
}

/// Article update payload.
#[derive(Debug, Clone)]
pub struct UpdateArticleRequest {
    /// Article title.
    pub title: String,
    /// Desired slug.
    pub slug: String,
    /// Markdown source.
    pub markdown: String,
}

/// Pageview ingestion payload.
#[derive(Debug, Clone)]
pub struct RecordPageviewRequest {
    /// Request path, e.g. `/posts/hello`.
    pub path: String,
    /// Article id when the page is an article.
    pub article_id: Option<i64>,
    /// Visitor IP as reported by the client.
    pub ip: String,
    /// Visitor user agent.
    pub user_agent: Option<String>,
    /// Visitor referer.
    pub referer: Option<String>,
}

/// Default look-back of the daily stats, in days.
pub const DEFAULT_DAYS: i64 = 30;

/// Default row limit of bounded lists.
pub const DEFAULT_LIMIT: i64 = 20;

/// Query for the daily stats endpoint.
#[derive(Debug, Clone, Copy, PartialEq, Eq, Structural)]
pub struct DailyQuery {
    /// How many days back; defaults to 30.
    pub days: Option<i64>,
}

impl DailyQuery {
    /// The requested look-back, or the default of 30 days.
    pub fn days_or_default(&self) -> (r: i64)
        ensures
            r == match self.days {
                Some(d) => d,
                None => DEFAULT_DAYS,
            },
    {
        match self.days {
            Some(d) => d,
            None => DEFAULT_DAYS,
        }
    }
}

/// Query for bounded list endpoints.
#[derive(Debug, Clone, Copy, PartialEq, Eq, Structural)]
pub struct LimitQuery {
    /// Max rows; defaults to 20.
    pub limit: Option<i64>,
}

impl LimitQuery {
    /// The requested limit, or the default of 20 rows.
    pub fn limit_or_default(&self) -> (r: i64)
        ensures
            r == match self.limit {
                Some(l) => l,
                None => DEFAULT_LIMIT,
            },
    {
        match self.limit {
            Some(l) => l,
            None => DEFAULT_LIMIT,
        }
    }
}

} // verus!
