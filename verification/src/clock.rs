//! The wall clock that stamps events.

use vstd::prelude::*;

verus! {

/// Whether a character is a decimal digit.
pub open spec fn is_digit(c: char) -> bool {
    '0' as u32 <= c as u32 <= '9' as u32
}

/// Whether a text has the shape of a time of day: hours, minutes and seconds,
/// two digits each, with a colon between them.
pub open spec fn is_clock_text(s: Seq<char>) -> bool {
    &&& s.len() == 8
    &&& is_digit(s[0])
    &&& is_digit(s[1])
    &&& s[2] == ':'
    &&& is_digit(s[3])
    &&& is_digit(s[4])
    &&& s[5] == ':'
    &&& is_digit(s[6])
    &&& is_digit(s[7])
}

/// `chrono::Utc::now`, formatted by `format` with `%H:%M:%S`: the time of day
/// in UTC at the moment of the call. Which time comes back is not stated, only
/// its shape: chrono writes hour, minute and second with two digits each.
#[verifier::external_body]
pub(crate) fn utc_time_of_day() -> (stamp: String)
    ensures
        is_clock_text(stamp@),
{
    chrono::Utc::now().format("%H:%M:%S").to_string()
}

/// The time of day in UTC, as events carry it.
pub fn timestamp_now() -> (stamp: String)
    ensures
        is_clock_text(stamp@),
{
    utc_time_of_day()
}

} // verus!
