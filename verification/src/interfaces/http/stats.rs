//! Admin traffic statistics: the look-back window of the daily query.

use vstd::prelude::*;
use vstd::string::*;
use crate::text::{signed_decimal, signed_decimal_string};

verus! {

/// The SQLite date modifier for a look-back of `days` days: `-{days} days`.
pub fn days_modifier(days: i64) -> (r: String)
    ensures
        r@ == seq!['-'] + signed_decimal(days as int) + " days"@,
{
    broadcast use vstd::string::group_string_axioms;
    let digits = signed_decimal_string(days);
    proof {
        reveal_strlit("-");
    }
    "-".to_string().concat(digits.as_str()).concat(" days")
}

} // verus!
