//! The time of day.

use vstd::prelude::*;

verus! {

/// What holds of every time stamp: it has at least 20 characters, a date and a
/// time of day to the second, and it ends in `Z`, for UTC.
pub open spec fn is_stamp(text: Seq<char>) -> bool {
    text.len() >= 20 && text.last() == 'Z'
}

/// `std::time::SystemTime::now`, made a date by chrono's
/// `DateTime::<Utc>::from`, which takes a clock that stands before 1970 as well
/// as one that stands after it, and written by `DateTime::to_rfc3339_opts` as an
/// RFC 3339 text with `Z` for UTC. The text depends on when the call is made;
/// its least length and its last character are stated, since every such text
/// has a year of four digits or more, then `-MM-DDTHH:MM:SS`, and the `Z`.
#[verifier::external_body]
pub(crate) fn utc_now() -> (text: String)
    ensures
        text@.len() >= 20,
        text@.last() == 'Z',
{
    chrono::DateTime::<chrono::Utc>::from(std::time::SystemTime::now())
        .to_rfc3339_opts(chrono::SecondsFormat::AutoSi, true)
}

} // verus!
