//! Moments in time, and the shapes in which a time may be written.

use vstd::prelude::*;

use crate::strings::{chars_of, trim, trimmed};

verus! {

/// The first second that the calendar reaches, counted from 1970.
pub const MIN_SECS: i64 = -8_334_601_228_800;

/// The last second that the calendar reaches, counted from 1970.
pub const MAX_SECS: i64 = 8_210_266_876_799;

/// A moment in UTC: seconds since 1970 and nanoseconds into the second.
#[derive(Debug, Clone, Copy, PartialEq, Eq, Structural)]
pub struct Moment {
    pub secs: i64,
    pub nanos: u32,
}

impl DeepView for Moment {
    type V = Moment;

    open spec fn deep_view(&self) -> Moment {
        *self
    }
}

impl Moment {
    /// The moment lies within the calendar. The nanoseconds pass one second
    /// only in a leap second.
    pub open spec fn wf(self) -> bool {
        &&& MIN_SECS <= self.secs <= MAX_SECS
        &&& self.nanos < 2_000_000_000
        &&& self.nanos >= 1_000_000_000 ==> self.secs as int % 60 == 59
    }

    /// The moment at a timestamp, where the calendar has it.
    pub fn at(secs: i64, nanos: u32) -> (r: Option<Moment>)
        ensures
            (Moment { secs, nanos }).wf() ==> r == Some(Moment { secs, nanos }),
            !(Moment { secs, nanos }).wf() ==> r is None,
    {
        let leap: bool = nanos >= 1_000_000_000;
        if secs < MIN_SECS || secs > MAX_SECS || nanos >= 2_000_000_000 {
            return None;
        }
        if leap && (secs - MIN_SECS) % 60 != 59 {
            return None;
        }
        Some(Moment { secs, nanos })
    }

    /// The day of the moment, such as `2026-09-06`.
    pub fn day(self) -> (r: String)
        requires
            self.wf(),
        ensures
            r@ == day_text(self.secs, self.nanos),
    {
        utc_day(self.secs, self.nanos)
    }

    /// The moment as RFC 3339 text, such as `2026-09-06T08:00:00Z`.
    pub fn rfc3339(self) -> (r: String)
        requires
            self.wf(),
        ensures
            r@ == rfc3339_text(self.secs, self.nanos),
    {
        utc_rfc3339(self.secs, self.nanos)
    }
}

/// The UTC day of a timestamp as `chrono` writes it with `%Y-%m-%d`.
pub uninterp spec fn day_text(secs: i64, nanos: u32) -> Seq<char>;

/// The RFC 3339 text of a timestamp as `chrono` writes it in UTC with a `Z`.
pub uninterp spec fn rfc3339_text(secs: i64, nanos: u32) -> Seq<char>;

/// `chrono` reads the text as an RFC 3339 date and time.
pub uninterp spec fn reads_as_rfc3339(s: Seq<char>) -> bool;

/// `DateTime::from_timestamp`, then `format("%Y-%m-%d")`: every timestamp
/// within the calendar is accepted, and its text depends on the timestamp
/// alone. Not said: how the calendar turns seconds into a year, month and day.
#[verifier::external_body]
fn utc_day(secs: i64, nanos: u32) -> (r: String)
    requires
        (Moment { secs, nanos }).wf(),
    ensures
        r@ == day_text(secs, nanos),
{
    chrono::DateTime::from_timestamp(secs, nanos).unwrap().format("%Y-%m-%d").to_string()
}

/// `DateTime::from_timestamp`, then `to_rfc3339_opts` with as many fractional
/// digits as needed and a `Z`: the text that `chrono` also serialises a moment
/// to. It depends on the timestamp alone.
#[verifier::external_body]
fn utc_rfc3339(secs: i64, nanos: u32) -> (r: String)
    requires
        (Moment { secs, nanos }).wf(),
    ensures
        r@ == rfc3339_text(secs, nanos),
{
    chrono::DateTime::from_timestamp(secs, nanos).unwrap().to_rfc3339_opts(
        chrono::SecondsFormat::AutoSi,
        true,
    )
}

/// `DateTime::parse_from_rfc3339` accepts or rejects by the text alone.
#[verifier::external_body]
fn parses_as_rfc3339(s: &str) -> (r: bool)
    ensures
        r == reads_as_rfc3339(s@),
{
    chrono::DateTime::parse_from_rfc3339(s).is_ok()
}

// ---- Written times ----

pub open spec fn ascii_digit(c: char) -> bool {
    '0' <= c <= '9'
}

/// The characters from `from` up to `to` are ASCII digits.
pub open spec fn digits_between(s: Seq<char>, from: int, to: int) -> bool {
    forall|i: int| from <= i < to ==> ascii_digit(#[trigger] s[i])
}

/// The number that the digits from `from` up to `to` write.
pub open spec fn number_between(s: Seq<char>, from: int, to: int) -> int
    decreases to - from,
{
    if from >= to {
        0
    } else {
        number_between(s, from, to - 1) * 10 + (s[to - 1] as int - 48)
    }
}

pub open spec fn leap_year(year: int) -> bool {
    year % 4 == 0 && (year % 100 != 0 || year % 400 == 0)
}

pub open spec fn days_in_month(year: int, month: int) -> int {
    if month == 2 {
        if leap_year(year) {
            29
        } else {
            28
        }
    } else if month == 4 || month == 6 || month == 9 || month == 11 {
        30
    } else {
        31
    }
}

/// `YYYY`.
pub open spec fn written_year(s: Seq<char>) -> bool {
    s.len() == 4 && digits_between(s, 0, 4)
}

/// `YYYY-MM`, the month between 01 and 12.
pub open spec fn written_month(s: Seq<char>) -> bool {
    &&& s.len() == 7
    &&& digits_between(s, 0, 4)
    &&& s[4] == '-'
    &&& digits_between(s, 5, 7)
    &&& 1 <= number_between(s, 5, 7) <= 12
}

/// `YYYY-MM-DD`, a day that the month has.
pub open spec fn written_day(s: Seq<char>) -> bool {
    &&& s.len() == 10
    &&& written_month(s.take(7))
    &&& s[7] == '-'
    &&& digits_between(s, 8, 10)
    &&& 1 <= number_between(s, 8, 10) <= days_in_month(
        number_between(s, 0, 4),
        number_between(s, 5, 7),
    )
}

/// A time in one of the agreed shapes: a year, a month, a day, or a moment
/// with its time zone.
pub open spec fn contract_time(s: Seq<char>) -> bool {
    let t = trimmed(s);
    ||| written_year(t)
    ||| written_month(t)
    ||| written_day(t)
    ||| reads_as_rfc3339(t)
}

fn digits_at(s: &Vec<char>, from: usize, to: usize) -> (r: Option<u32>)
    requires
        from <= to <= s@.len(),
        to - from <= 4,
    ensures
        r is Some <==> digits_between(s@, from as int, to as int),
        r matches Some(n) ==> n == number_between(s@, from as int, to as int) && n <= 9999,
{
    let mut n: u32 = 0;
    let mut i: usize = from;
    let ghost mut bound: int = 1;
    while i < to
        invariant
            from <= i <= to,
            to <= s@.len(),
            to - from <= 4,
            n == number_between(s@, from as int, i as int),
            n < bound,
            i - from == 0 ==> bound == 1,
            i - from == 1 ==> bound == 10,
            i - from == 2 ==> bound == 100,
            i - from == 3 ==> bound == 1000,
            i - from == 4 ==> bound == 10000,
            digits_between(s@, from as int, i as int),
        decreases to - i,
    {
        let c: char = s[i];
        if !('0' <= c && c <= '9') {
            assert(!ascii_digit(s@[i as int]));
            return None;
        }
        n = n * 10 + (c as u32 - 48);
        proof {
            bound = bound * 10;
        }
        i = i + 1;
    }
    Some(n)
}

fn month_days(year: u32, month: u32) -> (r: u32)
    ensures
        r == days_in_month(year as int, month as int),
{
    if month == 2 {
        if year % 4 == 0 && (year % 100 != 0 || year % 400 == 0) {
            29
        } else {
            28
        }
    } else if month == 4 || month == 6 || month == 9 || month == 11 {
        30
    } else {
        31
    }
}

/// One side of a fact is a time in one of the agreed shapes.
pub fn is_contract_time(s: &str) -> (r: bool)
    ensures
        r == contract_time(s@),
{
    let t: &str = trim(s);
    let c: Vec<char> = chars_of(t);
    let n: usize = c.len();
    if n == 4 {
        if digits_at(&c, 0, 4).is_some() {
            return true;
        }
    } else if n == 7 {
        if digits_at(&c, 0, 4).is_some() && c[4] == '-' {
            if let Some(month) = digits_at(&c, 5, 7) {
                if 1 <= month && month <= 12 {
                    return true;
                }
            }
        }
    } else if n == 10 {
        if is_day(&c) {
            return true;
        }
    }
    parses_as_rfc3339(t)
}

fn is_day(c: &Vec<char>) -> (r: bool)
    requires
        c@.len() == 10,
    ensures
        r == written_day(c@),
{
    let ghost head = c@.take(7);
    proof {
        assert(forall|i: int| 0 <= i < 7 ==> head[i] == c@[i]);
        lemma_same_number(head, c@, 5, 7);
        assert(digits_between(c@, 0, 4) ==> digits_between(head, 0, 4));
        assert(digits_between(head, 0, 4) ==> digits_between(c@, 0, 4)) by {
            if digits_between(head, 0, 4) {
                assert forall|i: int| 0 <= i < 4 implies ascii_digit(#[trigger] c@[i]) by {
                    assert(ascii_digit(head[i]));
                }
            }
        }
        assert(digits_between(head, 5, 7) ==> digits_between(c@, 5, 7)) by {
            if digits_between(head, 5, 7) {
                assert forall|i: int| 5 <= i < 7 implies ascii_digit(#[trigger] c@[i]) by {
                    assert(ascii_digit(head[i]));
                }
            }
        }
        assert(digits_between(c@, 5, 7) ==> digits_between(head, 5, 7));
    }
    if c[4] != '-' || c[7] != '-' {
        return false;
    }
    match (digits_at(c, 0, 4), digits_at(c, 5, 7), digits_at(c, 8, 10)) {
        (Some(year), Some(month), Some(day)) => {
            1 <= month && month <= 12 && 1 <= day && day <= month_days(year, month)
        },
        _ => false,
    }
}

proof fn lemma_same_number(a: Seq<char>, b: Seq<char>, from: int, to: int)
    requires
        forall|i: int| from <= i < to ==> a[i] == b[i],
    ensures
        number_between(a, from, to) == number_between(b, from, to),
    decreases to - from,
{
    if from < to {
        lemma_same_number(a, b, from, to - 1);
    }
}

} // verus!
