//! Authentication: what makes a session cookie valid.

use vstd::prelude::*;
use crate::text::same_text;

verus! {

/// Name of the session cookie.
pub const AUTH_COOKIE: &'static str = "zblog_auth";

/// Value stored in the (signed, unforgeable) session cookie.
pub const AUTH_VALUE: &'static str = "authenticated";

/// Whether the decrypted session cookie (if the request carried one) grants access.
pub fn session_is_valid(cookie_value: Option<&str>) -> (r: bool)
    ensures
        r == (cookie_value matches Some(v) && v@ == AUTH_VALUE@),
{
    match cookie_value {
        Some(v) => same_text(v, AUTH_VALUE),
        None => false,
    }
}

} // verus!
