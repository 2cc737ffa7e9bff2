//! Calendar dates given as text (`YYYY-MM-DD`).
use vstd::prelude::*;

verus! {

/// The message of the error with which chrono's `NaiveDate::parse_from_str(text, "%Y-%m-%d")`
/// rejects `text`; none where it accepts it.
pub uninterp spec fn ymd_date_error(text: Seq<char>) -> Option<Seq<char>>;

/// Calls `chrono::NaiveDate::parse_from_str(text, "%Y-%m-%d")`. Claimed: it fails exactly when
/// `ymd_date_error` names an error, and its error displays as that message.
#[verifier::external_body]
pub(crate) fn check_ymd_date(text: &str) -> (r: Result<(), String>)
    ensures
        match r {
            Ok(()) => ymd_date_error(text@) is None,
            Err(e) => ymd_date_error(text@) == Some(e@),
        },
{
    match chrono::NaiveDate::parse_from_str(text, "%Y-%m-%d") {
        Ok(_) => Ok(()),
        Err(e) => Err(e.to_string()),
    }
}

} // verus!
