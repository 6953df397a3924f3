//! The current time, as text.

use vstd::prelude::*;
use crate::search::first_where;
use crate::text::{all_digits, decimal, is_digit};

verus! {

/// Where the year of a timestamp ends: after four digits, or, for a year
/// beyond 9999, which is written with a sign, before the first hyphen.
pub open spec fn year_end(text: Seq<char>) -> int {
    if text.len() > 0 && text[0] == '+' {
        first_where(text, |c: char| c == '-')
    } else {
        4
    }
}

/// Whether `text` has at `at` two digits that write a number from `least` to `most`.
pub open spec fn has_number(text: Seq<char>, at: int, least: int, most: int) -> bool {
    let digits = text.subrange(at, at + 2);
    all_digits(digits) && least <= decimal(digits) <= most
}

/// The fraction of a second: nothing, or a point and three, six or nine digits.
pub open spec fn is_fraction(text: Seq<char>) -> bool {
    text.len() == 0 || {
        &&& text[0] == '.'
        &&& text.len() == 4 || text.len() == 7 || text.len() == 10
        &&& all_digits(text.skip(1))
    }
}

/// What every timestamp that the operator writes looks like: a date and a time
/// of day in UTC, in RFC 3339 format.
pub open spec fn is_utc_timestamp(text: Seq<char>) -> bool {
    let year = year_end(text);
    let end = text.len() - 6;
    &&& year + 15 <= end
    &&& if text[0] == '+' {
        year >= 6 && all_digits(text.subrange(1, year))
    } else {
        all_digits(text.subrange(0, year))
    }
    &&& text[year] == '-' && has_number(text, year + 1, 1, 12)
    &&& text[year + 3] == '-' && has_number(text, year + 4, 1, 31)
    &&& text[year + 6] == 'T' && has_number(text, year + 7, 0, 23)
    &&& text[year + 9] == ':' && has_number(text, year + 10, 0, 59)
    &&& text[year + 12] == ':' && has_number(text, year + 13, 0, 60)
    &&& is_fraction(text.subrange(year + 15, end))
    &&& text.skip(end) == "+00:00"@
}

/// Calls `chrono::Utc::now` and `DateTime::to_rfc3339`. The text depends on the
/// time of the call; whenever it is made, the text is a date and a time of day
/// in RFC 3339 format, with the offset `+00:00`. The year has four digits, or,
/// beyond 9999, a plus sign and more of them. That it is the current time is
/// not stated.
#[verifier::external_body]
pub(crate) fn now_rfc3339() -> (now: String)
    ensures
        is_utc_timestamp(now@),
{
    k8s_openapi::chrono::Utc::now().to_rfc3339()
}

/// A timestamp of a year up to 9999 has its separators and its digits where
/// RFC 3339 wants them, and is one of UTC.
pub proof fn law_timestamp(text: Seq<char>)
    requires
        is_utc_timestamp(text),
        text[0] != '+',
    ensures
        text.len() == 25 || text.len() == 29 || text.len() == 32 || text.len() == 35,
        text[4] == '-' && text[7] == '-' && text[10] == 'T' && text[13] == ':' && text[16] == ':',
        text.len() > 25 ==> text[19] == '.',
        forall|i: int|
            0 <= i < text.len() - 6 && i != 4 && i != 7 && i != 10 && i != 13 && i != 16 && i != 19
                ==> '0' <= #[trigger] text[i] <= '9',
        text.skip(text.len() - 6) == "+00:00"@,
{
    let end = text.len() - 6;
    let fraction = text.subrange(19, end);
    assert forall|i: int|
        0 <= i < end && i != 4 && i != 7 && i != 10 && i != 13 && i != 16 && i
            != 19 implies '0' <= #[trigger] text[i] <= '9' by {
        if i < 4 {
            assert(is_digit(text.subrange(0, 4)[i]));
        } else if i < 7 {
            assert(is_digit(text.subrange(5, 7)[i - 5]));
        } else if i < 10 {
            assert(is_digit(text.subrange(8, 10)[i - 8]));
        } else if i < 13 {
            assert(is_digit(text.subrange(11, 13)[i - 11]));
        } else if i < 16 {
            assert(is_digit(text.subrange(14, 16)[i - 14]));
        } else if i < 19 {
            assert(is_digit(text.subrange(17, 19)[i - 17]));
        } else {
            assert(is_digit(fraction.skip(1)[i - 20]));
        }
    }
    if fraction.len() > 0 {
        assert(fraction[0] == text[19]);
    }
}

} // verus!
