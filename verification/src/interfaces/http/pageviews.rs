//! Pageview ingestion: validating a report and building the row to record.

use vstd::prelude::*;
use vstd::string::*;
use crate::domain::pageview::NewPageview;
use crate::error::AppError;

verus! {

/// The text of an optional header, empty when it is absent.
pub open spec fn text_or_empty(v: Option<String>) -> Seq<char> {
    match v {
        Some(s) => s@,
        None => Seq::empty(),
    }
}

/// Build the pageview to record from a report: the path and article id from the
/// body, the IP of the peer, and the user agent and referer headers (empty when
/// absent or not readable as text).
///
/// # Errors
/// Returns `AppError::BadRequest` when `path` is empty.
pub fn pageview_from_request(
    path: String,
    article_id: Option<i64>,
    ip: String,
    user_agent: Option<String>,
    referer: Option<String>,
) -> (r: Result<NewPageview, AppError>)
    ensures
        r is Err <==> path@.len() == 0,
        r matches Err(e) ==> (e matches AppError::BadRequest(m) && m@ == "path must not be empty"@),
        r matches Ok(pv) ==> {
            &&& pv.path@ == path@
            &&& pv.article_id == article_id
            &&& pv.ip@ == ip@
            &&& pv.user_agent@ == text_or_empty(user_agent)
            &&& pv.referer@ == text_or_empty(referer)
        },
{
    broadcast use vstd::string::group_string_axioms;
    if path.as_str().is_empty() {
        return Err(AppError::BadRequest("path must not be empty".to_string()));
    }
    let user_agent = match user_agent {
        Some(v) => v,
        None => String::new(),
    };
    let referer = match referer {
        Some(v) => v,
        None => String::new(),
    };
    Ok(NewPageview { path, article_id, ip, user_agent, referer })
}

} // verus!
