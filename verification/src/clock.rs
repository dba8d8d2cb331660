//! The time of day.

use crate::text::number;
use vstd::prelude::*;

verus! {

/// From `i` on there are two digits, and the number they spell is within the bounds.
pub open spec fn two_digits(text: Seq<char>, i: int, low: nat, high: nat) -> bool {
    let own = text.subrange(i, i + 2);
    number::all_digits(own) && low <= number::decimal_value(own) <= high
}

/// A year from 1970 on: four digits, or a plus sign and five or six digits from 10000 on.
pub open spec fn is_year(text: Seq<char>) -> bool {
    ||| text.len() == 4 && number::all_digits(text) && number::decimal_value(text) >= 1970
    ||| {
        &&& 6 <= text.len() <= 7 && text[0] == '+'
        &&& number::all_digits(text.skip(1)) && number::decimal_value(text.skip(1)) >= 10000
    }
}

/// A part of a second: nothing, or a point and three, six or nine digits, no more of them than are
/// needed.
pub open spec fn is_fraction(text: Seq<char>) -> bool {
    ||| text.len() == 0
    ||| {
        let n = text.len() as int;
        &&& n == 4 || n == 7 || n == 10
        &&& text[0] == '.' && number::all_digits(text.skip(1))
        &&& !(text[n - 3] == '0' && text[n - 2] == '0' && text[n - 1] == '0')
    }
}

/// What follows the year of a moment: the month, the day, the time of day and the `Z` of UTC.
pub open spec fn is_within_year(text: Seq<char>) -> bool {
    &&& text.len() >= 16
    &&& text[0] == '-' && two_digits(text, 1, 1, 12)
    &&& text[3] == '-' && two_digits(text, 4, 1, 31)
    &&& text[6] == 'T' && two_digits(text, 7, 0, 23)
    &&& text[9] == ':' && two_digits(text, 10, 0, 59)
    &&& text[12] == ':' && two_digits(text, 13, 0, 59)
    &&& is_fraction(text.subrange(15, text.len() - 1))
    &&& text.last() == 'Z'
}

/// A moment as it is written in files and replies, such as `2026-01-02T03:04:05.678Z`: a date, a
/// `T`, a time of day with a part of a second where there is one, and a `Z`, which says that it is
/// in UTC.
pub open spec fn is_moment(text: Seq<char>) -> bool {
    exists|n: int|
        0 <= n <= text.len() && is_year(#[trigger] text.take(n)) && is_within_year(text.skip(n))
}

/// `chrono::Utc::now` and `DateTime::to_rfc3339_opts`: the time of this machine in UTC, as a date
/// and a time of day with as many digits after the seconds as are needed, in threes. Which moment
/// it is depends on the clock of the machine and is left unsaid. With a clock that is set before
/// 1970, or behind the last year that a date can have, there is none, and the call panics.
#[verifier::external_body]
pub(crate) fn moment() -> (text: String)
    ensures
        is_moment(text@),
{
    chrono::Utc::now().to_rfc3339_opts(chrono::SecondsFormat::AutoSi, true)
}

} // verus!
