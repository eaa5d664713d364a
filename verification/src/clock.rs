//! The current time as text.

use vstd::prelude::*;
use crate::number;

verus! {

/// A year: four digits, or from the year 10000 on a plus sign and five digits or more.
pub open spec fn is_year(s: Seq<char>) -> bool {
    ||| s.len() == 4 && number::all_digits(s)
    ||| s.len() >= 6 && s[0] == '+' && number::all_digits(s.skip(1))
}

/// Two digits that write a number between `low` and `high`.
pub open spec fn is_field(s: Seq<char>, low: int, high: int) -> bool {
    &&& s.len() == 2
    &&& number::all_digits(s)
    &&& low <= number::value(s) <= high
}

/// A fraction of a second: nothing, or a point and three, six or nine digits.
pub open spec fn is_fraction(s: Seq<char>) -> bool {
    ||| s.len() == 0
    ||| {
        &&& s.len() == 4 || s.len() == 7 || s.len() == 10
        &&& s[0] == '.'
        &&& number::all_digits(s.skip(1))
    }
}

/// A date and time in UTC whose year takes the first `year` characters.
pub open spec fn is_utc_with_year(s: Seq<char>, year: int) -> bool {
    &&& 0 <= year
    &&& year + 21 <= s.len()
    &&& is_year(s.take(year))
    &&& s[year] == '-'
    &&& is_field(s.subrange(year + 1, year + 3), 1, 12)
    &&& s[year + 3] == '-'
    &&& is_field(s.subrange(year + 4, year + 6), 1, 31)
    &&& s[year + 6] == 'T'
    &&& is_field(s.subrange(year + 7, year + 9), 0, 23)
    &&& s[year + 9] == ':'
    &&& is_field(s.subrange(year + 10, year + 12), 0, 59)
    &&& s[year + 12] == ':'
    &&& is_field(s.subrange(year + 13, year + 15), 0, 59)
    &&& is_fraction(s.subrange(year + 15, s.len() - 6))
    &&& s.skip(s.len() - 6) == "+00:00"@
}

/// A date and time of RFC 3339 in UTC: year, month and day between hyphens, `T`, hours, minutes
/// and seconds between colons, perhaps a fraction, and the offset `+00:00`.
pub open spec fn is_utc_timestamp(s: Seq<char>) -> bool {
    exists|year: int| is_utc_with_year(s, year)
}

/// `chrono::Utc::now` rendered by `chrono::DateTime::to_rfc3339`. Every outcome is a date and time
/// of RFC 3339 with the offset `+00:00`; which time it says is left open. The call panics where the
/// clock of the machine stands before 1970 or beyond the range of chrono.
#[verifier::external_body]
pub(crate) fn now_rfc3339() -> (r: String)
    ensures
        is_utc_timestamp(r@),
{
    chrono::Utc::now().to_rfc3339()
}

} // verus!
