//! Public (Visitor-facing) article decisions.

use vstd::prelude::*;
use crate::domain::article::{Article, ArticleStatus};
use crate::error::AppError;

verus! {

/// What a Visitor gets for a slug lookup: the article when it is published,
/// `NotFound` for a draft and for an unknown slug alike.
///
/// # Errors
/// Returns `AppError::NotFound` for drafts and unknown slugs.
pub fn published_only(found: Option<Article>) -> (r: Result<Article, AppError>)
    ensures
        match found {
            Some(a) => if a.status == ArticleStatus::Published {
                r == Ok::<Article, AppError>(a)
            } else {
                r matches Err(AppError::NotFound)
            },
            None => r matches Err(AppError::NotFound),
        },
        r matches Ok(a) ==> a.status == ArticleStatus::Published,
{
    match found {
        Some(article) => if article.status == ArticleStatus::Published {
            Ok(article)
        } else {
            Err(AppError::NotFound)
        },
        None => Err(AppError::NotFound),
    }
}

} // verus!
