//! Laws of written times: which texts are a year, a month or a day.

use vstd::prelude::*;

use crate::moment::{
    ascii_digit, contract_time, days_in_month, digits_between, number_between, reads_as_rfc3339,
    written_day, written_month, written_year,
};
use crate::strings::{lemma_trimmed_again, trimmed};

verus! {

/// The value of a decimal digit.
pub open spec fn value_of(c: char) -> int {
    c as int - '0' as int
}

pub open spec fn is_digit(c: char) -> bool {
    '0' <= c <= '9'
}

/// Four digits.
pub open spec fn looks_like_a_year(t: Seq<char>) -> bool {
    t.len() == 4 && is_digit(t[0]) && is_digit(t[1]) && is_digit(t[2]) && is_digit(t[3])
}

/// A year, a hyphen and two digits from 01 to 12.
pub open spec fn looks_like_a_month(t: Seq<char>) -> bool {
    &&& t.len() == 7
    &&& is_digit(t[0]) && is_digit(t[1]) && is_digit(t[2]) && is_digit(t[3])
    &&& t[4] == '-'
    &&& is_digit(t[5]) && is_digit(t[6])
    &&& 1 <= 10 * value_of(t[5]) + value_of(t[6]) <= 12
}

/// The month has this day: thirty days has September, April, June and November,
/// February has twenty-eight, and one more in a leap year; all others have
/// thirty-one.
pub open spec fn is_a_day_of(year: int, month: int, day: int) -> bool {
    &&& 1 <= day <= 31
    &&& month == 4 || month == 6 || month == 9 || month == 11 ==> day <= 30
    &&& month == 2 ==> day <= 29
    &&& month == 2 && day == 29 ==> year % 400 == 0 || (year % 4 == 0 && year % 100 != 0)
}

/// A month, a hyphen and two digits that are a day of it.
pub open spec fn looks_like_a_day(t: Seq<char>) -> bool {
    &&& t.len() == 10
    &&& is_digit(t[0]) && is_digit(t[1]) && is_digit(t[2]) && is_digit(t[3])
    &&& t[4] == '-'
    &&& is_digit(t[5]) && is_digit(t[6])
    &&& t[7] == '-'
    &&& is_digit(t[8]) && is_digit(t[9])
    &&& 1 <= 10 * value_of(t[5]) + value_of(t[6]) <= 12
    &&& is_a_day_of(
        1000 * value_of(t[0]) + 100 * value_of(t[1]) + 10 * value_of(t[2]) + value_of(t[3]),
        10 * value_of(t[5]) + value_of(t[6]),
        10 * value_of(t[8]) + value_of(t[9]),
    )
}

proof fn lemma_two_digits(t: Seq<char>, from: int)
    requires
        0 <= from,
        from + 2 <= t.len(),
    ensures
        digits_between(t, from, from + 2) <==> is_digit(t[from]) && is_digit(t[from + 1]),
        number_between(t, from, from + 2) == 10 * value_of(t[from]) + value_of(t[from + 1]),
{
    if digits_between(t, from, from + 2) {
        assert(ascii_digit(t[from]) && ascii_digit(t[from + 1]));
    }
    if is_digit(t[from]) && is_digit(t[from + 1]) {
        assert forall|i: int| from <= i < from + 2 implies ascii_digit(#[trigger] t[i]) by {
            assert(i == from || i == from + 1);
        }
    }
    assert(number_between(t, from, from) == 0);
    assert(number_between(t, from, from + 1) == value_of(t[from]));
}

proof fn lemma_four_digits(t: Seq<char>)
    requires
        4 <= t.len(),
    ensures
        digits_between(t, 0, 4) <==> is_digit(t[0]) && is_digit(t[1]) && is_digit(t[2]) && is_digit(
            t[3],
        ),
        number_between(t, 0, 4) == 1000 * value_of(t[0]) + 100 * value_of(t[1]) + 10 * value_of(
            t[2],
        ) + value_of(t[3]),
{
    if digits_between(t, 0, 4) {
        assert(ascii_digit(t[0]) && ascii_digit(t[1]) && ascii_digit(t[2]) && ascii_digit(t[3]));
    }
    if is_digit(t[0]) && is_digit(t[1]) && is_digit(t[2]) && is_digit(t[3]) {
        assert forall|i: int| 0 <= i < 4 implies ascii_digit(#[trigger] t[i]) by {
            assert(i == 0 || i == 1 || i == 2 || i == 3);
        }
    }
    assert(number_between(t, 0, 0) == 0);
    assert(number_between(t, 0, 1) == value_of(t[0]));
    assert(number_between(t, 0, 2) == number_between(t, 0, 1) * 10 + value_of(t[1]));
    assert(number_between(t, 0, 3) == number_between(t, 0, 2) * 10 + value_of(t[2]));
    assert(number_between(t, 0, 4) == number_between(t, 0, 3) * 10 + value_of(t[3]));
}

/// A text is a time where, without white space at its ends, it is a year, a month of
/// a year, a day that there is, or a moment with its zone; no other text is.
pub proof fn law_a_time_is_a_year_a_month_or_a_day(s: Seq<char>)
    ensures
        contract_time(s) <==> {
            let t = trimmed(s);
            looks_like_a_year(t) || looks_like_a_month(t) || looks_like_a_day(t)
                || reads_as_rfc3339(t)
        },
        contract_time(trimmed(s)) == contract_time(s),
{
    let t = trimmed(s);
    lemma_trimmed_again(s);
    if t.len() == 4 {
        lemma_four_digits(t);
        assert(written_year(t) == looks_like_a_year(t));
    } else if t.len() == 7 {
        lemma_four_digits(t);
        lemma_two_digits(t, 5);
        assert(written_month(t) == looks_like_a_month(t));
    } else if t.len() == 10 {
        let head = t.take(7);
        lemma_four_digits(t);
        lemma_two_digits(t, 5);
        lemma_two_digits(t, 8);
        lemma_four_digits(head);
        lemma_two_digits(head, 5);
        assert(written_month(head) == looks_like_a_month(head));
        let year = number_between(t, 0, 4);
        let month = number_between(t, 5, 7);
        let day = number_between(t, 8, 10);
        if 1 <= month <= 12 {
            assert((1 <= day <= days_in_month(year, month)) == is_a_day_of(year, month, day));
        }
        assert(written_day(t) == looks_like_a_day(t));
    }
}

} // verus!
