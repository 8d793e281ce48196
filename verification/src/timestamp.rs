//! Civil (proleptic Gregorian, UTC) calendar conversion from a raw count of
//! seconds since 1970-01-01T00:00:00Z.
//!
//! The specification side models the calendar with two recursive counting
//! functions: `days_before_year` (days from the epoch to January 1 of a year)
//! and `days_before_month` (days from January 1 to the first of a month).
//! A `Timestamp` is correct for an instant exactly when it is well formed and
//! its `epoch_seconds` equals that instant; this pins the conversion down
//! field by field.

use vstd::prelude::*;
use crate::render::{dec_rep, two_digit_rep, push_decimal, push_two_digit};

verus! {

/// A year is a leap year iff it is divisible by 400, or divisible by 4 but
/// not by 100.
pub open spec fn is_leap_spec(year: int) -> bool {
    year % 400 == 0 || (year % 4 == 0 && year % 100 != 0)
}

/// Number of days in `year`.
pub open spec fn days_in_year(year: int) -> int {
    if is_leap_spec(year) {
        366
    } else {
        365
    }
}

/// Number of days in month `month` (1-based) of `year`.
pub open spec fn days_in_month(year: int, month: int) -> int {
    if month == 1 {
        31
    } else if month == 2 {
        if is_leap_spec(year) {
            29
        } else {
            28
        }
    } else if month == 3 {
        31
    } else if month == 4 {
        30
    } else if month == 5 {
        31
    } else if month == 6 {
        30
    } else if month == 7 {
        31
    } else if month == 8 {
        31
    } else if month == 9 {
        30
    } else if month == 10 {
        31
    } else if month == 11 {
        30
    } else {
        31
    }
}

/// Days from 1970-01-01 to January 1 of `year` (0 for 1970 and below).
pub open spec fn days_before_year(year: int) -> int
    decreases year - 1970,
{
    if year <= 1970 {
        0
    } else {
        days_before_year(year - 1) + days_in_year(year - 1)
    }
}

/// Days from January 1 of `year` to the first day of `month` (1-based).
pub open spec fn days_before_month(year: int, month: int) -> int
    decreases month,
{
    if month <= 1 {
        0
    } else {
        days_before_month(year, month - 1) + days_in_month(year, month - 1)
    }
}

/// A civil UTC timestamp: calendar date and time of day.
pub struct Timestamp {
    pub year: u64,
    pub month: u16,
    pub day: u16,
    pub hours: u8,
    pub minutes: u8,
    pub seconds: u8,
}

impl Timestamp {
    /// All fields lie in their calendar ranges.
    pub open spec fn wf(self) -> bool {
        &&& 1970 <= self.year
        &&& 1 <= self.month <= 12
        &&& 1 <= self.day <= days_in_month(self.year as int, self.month as int)
        &&& self.hours < 24
        &&& self.minutes < 60
        &&& self.seconds < 60
    }

    /// The day this timestamp falls on, counted from 1970-01-01 as day 0.
    pub open spec fn day_number(self) -> int {
        days_before_year(self.year as int) + days_before_month(
            self.year as int,
            self.month as int,
        ) + self.day - 1
    }

    /// Seconds elapsed since midnight of the timestamp's day.
    pub open spec fn time_of_day(self) -> int {
        3600 * self.hours + 60 * self.minutes + self.seconds
    }

    /// The instant this timestamp denotes, as seconds since the epoch.
    pub open spec fn epoch_seconds(self) -> int {
        86400 * self.day_number() + self.time_of_day()
    }

    /// The rendered form `YYYY-MM-DD HH:MM:SS`: the year unpadded, every
    /// other field zero-padded to two digits.
    pub open spec fn render_spec(self) -> Seq<char> {
        dec_rep(self.year as nat) + seq!['-'] + two_digit_rep(self.month as int) + seq!['-']
            + two_digit_rep(self.day as int) + seq![' '] + two_digit_rep(self.hours as int)
            + seq![':'] + two_digit_rep(self.minutes as int) + seq![':'] + two_digit_rep(
            self.seconds as int,
        )
    }

    /// Lexicographic order on the fields, year first: the order in which
    /// rendered timestamps compare as text.
    pub open spec fn lex_le(self, other: Timestamp) -> bool {
        if self.year != other.year {
            self.year < other.year
        } else if self.month != other.month {
            self.month < other.month
        } else if self.day != other.day {
            self.day < other.day
        } else if self.hours != other.hours {
            self.hours < other.hours
        } else if self.minutes != other.minutes {
            self.minutes < other.minutes
        } else {
            self.seconds <= other.seconds
        }
    }
}

/// A year is a leap year iff it is divisible by 400, or divisible by 4 but
/// not by 100.
pub fn is_leap_year(year: u64) -> (r: bool)
    ensures
        r == is_leap_spec(year as int),
{
    year % 400 == 0 || (year % 4 == 0 && year % 100 != 0)
}

/// Each year from 1970 on contributes at least one day, so the day count to
/// January 1 grows at least as fast as the year number.
proof fn lemma_days_before_year_lb(year: int)
    requires
        1970 <= year,
    ensures
        days_before_year(year) >= year - 1970,
    decreases year - 1970,
{
    if year > 1970 {
        lemma_days_before_year_lb(year - 1);
    }
}

/// The twelve month lengths of a year sum to that year's length.
proof fn lemma_months_cover_year(year: int)
    ensures
        days_before_month(year, 13) == days_in_year(year),
{
    reveal_with_fuel(days_before_month, 14);
}

/// Number of days in month `month` (1-based) of `year`.
fn days_in_month_count(year: u64, month: u16) -> (r: u64)
    requires
        1 <= month <= 12,
    ensures
        r == days_in_month(year as int, month as int),
        1 <= r <= 31,
{
    if month == 1 {
        31
    } else if month == 2 {
        if is_leap_year(year) {
            29
        } else {
            28
        }
    } else if month == 3 {
        31
    } else if month == 4 {
        30
    } else if month == 5 {
        31
    } else if month == 6 {
        30
    } else if month == 7 {
        31
    } else if month == 8 {
        31
    } else if month == 9 {
        30
    } else if month == 10 {
        31
    } else if month == 11 {
        30
    } else {
        31
    }
}

impl Timestamp {
    /// Convert a count of seconds since 1970-01-01T00:00:00Z into the civil
    /// UTC instant it denotes. Total: every `u64` maps to a well-formed
    /// timestamp whose `epoch_seconds` is exactly the input.
    pub fn from_unix(total_seconds: u64) -> (r: Timestamp)
        ensures
            r.wf(),
            r.epoch_seconds() == total_seconds as int,
    {
        let seconds = (total_seconds % 60) as u8;
        let total_minutes = total_seconds / 60;
        let minutes = (total_minutes % 60) as u8;
        let total_hours = total_minutes / 60;
        let hours = (total_hours % 24) as u8;
        let total_days = total_hours / 24;

        proof {
            vstd::arithmetic::div_mod::lemma_fundamental_div_mod(total_seconds as int, 60);
            vstd::arithmetic::div_mod::lemma_fundamental_div_mod(total_minutes as int, 60);
            vstd::arithmetic::div_mod::lemma_fundamental_div_mod(total_hours as int, 24);
            vstd::arithmetic::div_mod::lemma_mod_bound(total_seconds as int, 60);
            vstd::arithmetic::div_mod::lemma_mod_bound(total_minutes as int, 60);
            vstd::arithmetic::div_mod::lemma_mod_bound(total_hours as int, 24);
            assert(total_seconds as int == 86400 * (total_days as int) + 3600 * (hours as int)
                + 60 * (minutes as int) + seconds as int);
            assert(total_days < 0x1000_0000_0000_0000);
        }

        let mut day: u64 = total_days;
        let mut year: u64 = 1970;
        loop
            invariant
                1970 <= year,
                day <= total_days,
                total_days < 0x1000_0000_0000_0000,
                days_before_year(year as int) + day == total_days as int,
            ensures
                1970 <= year,
                days_before_year(year as int) + day == total_days as int,
                day < days_in_year(year as int),
            decreases day,
        {
            let year_len: u64 = if is_leap_year(year) {
                366
            } else {
                365
            };
            if day < year_len {
                break ;
            }
            proof {
                lemma_days_before_year_lb(year as int);
            }
            day = day - year_len;
            year = year + 1;
        }

        let day_of_year: u64 = day + 1;
        proof {
            lemma_months_cover_year(year as int);
        }

        let mut rest: u64 = day_of_year;
        let mut month: u16 = 1;
        loop
            invariant
                1 <= month <= 12,
                1 <= rest,
                days_before_month(year as int, month as int) + rest == day_of_year as int,
                day_of_year <= days_in_year(year as int),
                days_before_month(year as int, 13) == days_in_year(year as int),
            ensures
                1 <= month <= 12,
                1 <= rest <= days_in_month(year as int, month as int),
                days_before_month(year as int, month as int) + rest == day_of_year as int,
            decreases 12 - month,
        {
            let month_len = days_in_month_count(year, month);
            if rest <= month_len {
                break ;
            }
            rest = rest - month_len;
            month = month + 1;
        }

        Timestamp { year, month, day: rest as u16, hours, minutes, seconds }
    }

    /// The civil UTC timestamp of the present instant, read from the system
    /// clock.
    pub fn new() -> (r: Timestamp)
        ensures
            r.wf(),
    {
        Timestamp::from_unix(unix_time_now())
    }

    /// Render this timestamp as `YYYY-MM-DD HH:MM:SS`.
    pub fn render(&self) -> (s: String)
        requires
            self.wf(),
        ensures
            s@ == self.render_spec(),
    {
        proof {
            reveal_strlit("-");
            reveal_strlit(" ");
            reveal_strlit(":");
        }
        let mut out = String::new();
        push_decimal(&mut out, self.year);
        out.append("-");
        push_two_digit(&mut out, self.month as u64);
        out.append("-");
        push_two_digit(&mut out, self.day as u64);
        out.append(" ");
        push_two_digit(&mut out, self.hours as u64);
        out.append(":");
        push_two_digit(&mut out, self.minutes as u64);
        out.append(":");
        push_two_digit(&mut out, self.seconds as u64);
        assert(out@ =~= self.render_spec());
        out
    }
}

/// Relies on `std::time::SystemTime::now` and `duration_since` against
/// `UNIX_EPOCH`: the present instant as whole seconds since the epoch.
/// Nothing is promised of the value. A clock reading earlier than the epoch
/// has no such count; that is an unrecoverable environment fault, and this
/// call aborts the process on it.
#[verifier::external_body]
fn unix_time_now() -> u64 {
    std::time::SystemTime::now()
        .duration_since(std::time::UNIX_EPOCH)
        .expect("current time before Unix epoch")
        .as_secs()
}

/// The day count to January 1 never shrinks as the year grows.
proof fn lemma_days_before_year_mono(y1: int, y2: int)
    requires
        y1 <= y2,
    ensures
        days_before_year(y1) <= days_before_year(y2),
    decreases y2 - y1,
{
    if y1 < y2 {
        lemma_days_before_year_mono(y1, y2 - 1);
    }
}

/// The day count to the first of a month never shrinks as the month grows.
proof fn lemma_days_before_month_mono(year: int, m1: int, m2: int)
    requires
        m1 <= m2,
    ensures
        days_before_month(year, m1) <= days_before_month(year, m2),
    decreases m2 - m1,
{
    if m1 < m2 {
        lemma_days_before_month_mono(year, m1, m2 - 1);
    }
}

/// A well-formed timestamp's day falls inside its own year: at or after
/// January 1, and strictly before January 1 of the next year.
proof fn lemma_day_number_in_year(ts: Timestamp)
    requires
        ts.wf(),
    ensures
        days_before_year(ts.year as int) <= ts.day_number(),
        ts.day_number() < days_before_year(ts.year as int + 1),
{
    lemma_days_before_month_mono(ts.year as int, 1, ts.month as int);
    lemma_days_before_month_mono(ts.year as int, ts.month as int + 1, 13);
    lemma_months_cover_year(ts.year as int);
    assert(days_before_month(ts.year as int, ts.month as int + 1) == days_before_month(
        ts.year as int,
        ts.month as int,
    ) + days_in_month(ts.year as int, ts.month as int));
}

/// If `b` comes strictly before `a` in field-lexicographic order, then `b`
/// denotes a strictly earlier instant.
proof fn lemma_lex_lt_implies_earlier(a: Timestamp, b: Timestamp)
    requires
        a.wf(),
        b.wf(),
        !a.lex_le(b),
    ensures
        b.epoch_seconds() < a.epoch_seconds(),
{
    lemma_day_number_in_year(a);
    lemma_day_number_in_year(b);
    if b.year < a.year {
        lemma_days_before_year_mono(b.year as int + 1, a.year as int);
        assert(b.day_number() < a.day_number());
    } else if b.month < a.month {
        lemma_days_before_month_mono(b.year as int, b.month as int + 1, a.month as int);
        assert(days_before_month(b.year as int, b.month as int + 1) == days_before_month(
            b.year as int,
            b.month as int,
        ) + days_in_month(b.year as int, b.month as int));
        assert(b.day_number() < a.day_number());
    } else if b.day < a.day {
        assert(b.day_number() < a.day_number());
    }
}

/// Converting later instants yields timestamps that never decrease in
/// field-lexicographic (equivalently, rendered-text) order: of two
/// well-formed timestamps, the one denoting the instant that is not later
/// compares less than or equal to the other, field by field.
pub proof fn lemma_timestamp_monotone(a: Timestamp, b: Timestamp)
    requires
        a.wf(),
        b.wf(),
        a.epoch_seconds() <= b.epoch_seconds(),
    ensures
        a.lex_le(b),
{
    if !a.lex_le(b) {
        lemma_lex_lt_implies_earlier(a, b);
    }
}

/// An instant has exactly one well-formed civil form: two well-formed
/// timestamps denoting the same count of seconds since the epoch agree in
/// every field. Together with `from_unix`'s contract, this pins the
/// conversion down completely.
pub proof fn lemma_timestamp_unique(a: Timestamp, b: Timestamp)
    requires
        a.wf(),
        b.wf(),
        a.epoch_seconds() == b.epoch_seconds(),
    ensures
        a == b,
{
    lemma_timestamp_monotone(a, b);
    lemma_timestamp_monotone(b, a);
}

} // verus!
