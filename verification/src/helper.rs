//! The clock, and dates and times as text.

use crate::text::{decimal, push_decimal, push_signed_decimal, signed_decimal};
use chrono::{Datelike, Timelike};
use vstd::prelude::*;

verus! {

/// Reads the clock once with `chrono::Utc::now` and hands out, in this
/// order: the seconds since 1970; the hour and the minute in the local time
/// zone; the day of the month, the month, the year, the hour, the minute and
/// the second in UTC. The contract states the ranges that chrono documents
/// for these fields; which moment is read is left open. chrono panics where
/// the system clock stands before 1970.
#[verifier::external_body]
fn read_clock() -> (now: (i64, u32, u32, u32, u32, i32, u32, u32, u32))
    ensures
        now.1 <= 23,
        now.2 <= 59,
        1 <= now.3 <= 31,
        1 <= now.4 <= 12,
        now.6 <= 23,
        now.7 <= 59,
        now.8 <= 59,
{
    let utc = chrono::Utc::now();
    let local = utc.with_timezone(&chrono::Local);
    let date = utc.date_naive();
    let time = utc.time();
    (
        utc.timestamp(),
        local.hour(),
        local.minute(),
        date.day(),
        date.month(),
        date.year(),
        time.hour(),
        time.minute(),
        time.second(),
    )
}

/// A date as text: day, month and year in decimal, joined by `-`.
pub open spec fn date_string(day: u32, month: u32, year: i32) -> Seq<char> {
    decimal(day as nat) + seq!['-'] + decimal(month as nat) + seq!['-'] + signed_decimal(
        year as int,
    )
}

/// A time of day as text: hour, minute and second in decimal, joined by `:`.
pub open spec fn time_string(hour: u32, minute: u32, second: u32) -> Seq<char> {
    decimal(hour as nat) + seq![':'] + decimal(minute as nat) + seq![':'] + decimal(second as nat)
}

/// Whether `text` is the date string of some day.
pub open spec fn is_date_string(text: Seq<char>) -> bool {
    exists|day: u32, month: u32, year: i32|
        1 <= day <= 31 && 1 <= month <= 12 && text == #[trigger] date_string(day, month, year)
}

/// Whether `text` is the time string of some moment of the day.
pub open spec fn is_time_string(text: Seq<char>) -> bool {
    exists|hour: u32, minute: u32, second: u32|
        hour <= 23 && minute <= 59 && second <= 59 && text == #[trigger] time_string(
            hour,
            minute,
            second,
        )
}

/// Writes a date as text.
pub fn format_date(day: u32, month: u32, year: i32) -> (out: String)
    ensures
        out@ == date_string(day, month, year),
{
    let mut out = String::new();
    push_decimal(&mut out, day as u64);
    out.push('-');
    push_decimal(&mut out, month as u64);
    out.push('-');
    push_signed_decimal(&mut out, year as i64);
    assert(out@ =~= date_string(day, month, year));
    out
}

/// Writes a time of day as text.
pub fn format_time(hour: u32, minute: u32, second: u32) -> (out: String)
    ensures
        out@ == time_string(hour, minute, second),
{
    let mut out = String::new();
    push_decimal(&mut out, hour as u64);
    out.push(':');
    push_decimal(&mut out, minute as u64);
    out.push(':');
    push_decimal(&mut out, second as u64);
    assert(out@ =~= time_string(hour, minute, second));
    out
}

/// Today's date in UTC as text. The clock decides which day that is.
pub fn get_current_date_in_string() -> (out: String)
    ensures
        is_date_string(out@),
{
    let (day, month, year, _, _, _) = get_current_time_in_utc();
    let out = format_date(day, month, year);
    assert(out@ == date_string(day, month, year));
    out
}

/// The time of day in UTC as text. The clock decides which moment that is.
pub fn get_current_time_in_string() -> (out: String)
    ensures
        is_time_string(out@),
{
    let (_, _, _, hour, minute, second) = get_current_time_in_utc();
    let out = format_time(hour, minute, second);
    assert(out@ == time_string(hour, minute, second));
    out
}

/// One reading of the clock: the seconds since 1970, the hour and minute
/// of the day in the local time zone, and the date and time of day in UTC.
#[derive(Debug, Clone, Copy, PartialEq, Eq, Structural)]
pub struct Clock {
    pub unix: u64,
    pub local_hour: u32,
    pub local_minute: u32,
    pub day: u32,
    pub month: u32,
    pub year: i32,
    pub hour: u32,
    pub minute: u32,
    pub second: u32,
}

impl Clock {
    /// Whether every field lies in the range of what it counts.
    pub open spec fn wf(self) -> bool {
        &&& self.local_hour <= 23
        &&& self.local_minute <= 59
        &&& 1 <= self.day <= 31
        &&& 1 <= self.month <= 12
        &&& self.hour <= 23
        &&& self.minute <= 59
        &&& self.second <= 59
    }

    /// The time of day in UTC as text.
    pub open spec fn time_text(self) -> Seq<char> {
        time_string(self.hour, self.minute, self.second)
    }

    /// The date in UTC as text.
    pub open spec fn date_text(self) -> Seq<char> {
        date_string(self.day, self.month, self.year)
    }

    /// Whether the fields lie in their ranges.
    pub fn is_valid(&self) -> (valid: bool)
        ensures
            valid == self.wf(),
    {
        self.local_hour <= 23 && self.local_minute <= 59 && 1 <= self.day && self.day <= 31 && 1
            <= self.month && self.month <= 12 && self.hour <= 23 && self.minute <= 59
            && self.second <= 59
    }

    /// Reads the clock. chrono hands the seconds since 1970 out as a signed
    /// number and states no sign of it; a negative number counts as 0.
    pub fn now() -> (clock: Clock)
        ensures
            clock.wf(),
    {
        let (timestamp, local_hour, local_minute, day, month, year, hour, minute, second) =
            read_clock();
        let unix: u64 = if timestamp < 0 {
            0
        } else {
            timestamp as u64
        };
        Clock { unix, local_hour, local_minute, day, month, year, hour, minute, second }
    }

    /// The time of day in UTC as text.
    pub fn time_string(&self) -> (out: String)
        ensures
            out@ == self.time_text(),
    {
        format_time(self.hour, self.minute, self.second)
    }

    /// The date in UTC as text.
    pub fn date_string(&self) -> (out: String)
        ensures
            out@ == self.date_text(),
    {
        format_date(self.day, self.month, self.year)
    }
}

/// The day of the month, the month, the year, the hour, the minute and
/// the second of the moment at which the clock is read, in UTC.
pub fn get_current_time_in_utc() -> (now: (u32, u32, i32, u32, u32, u32))
    ensures
        1 <= now.0 <= 31,
        1 <= now.1 <= 12,
        now.3 <= 23,
        now.4 <= 59,
        now.5 <= 59,
{
    let clock = Clock::now();
    (clock.day, clock.month, clock.year, clock.hour, clock.minute, clock.second)
}

const SECONDS_IN_MINUTE: u64 = 60;

const SECONDS_IN_HOUR: u64 = 3600;

const SECONDS_IN_DAY: u64 = 86400;

/// Whether `year` is a leap year of the Gregorian calendar.
pub open spec fn spec_is_leap(year: int) -> bool {
    (year % 4 == 0 && year % 100 != 0) || year % 400 == 0
}

/// The number of days of `year`.
pub open spec fn days_in_year(year: int) -> int {
    if spec_is_leap(year) {
        366
    } else {
        365
    }
}

/// The number of days of the month `month` of `year`.
pub open spec fn spec_days_in_month(year: int, month: int) -> int {
    if month == 2 {
        if spec_is_leap(year) {
            29
        } else {
            28
        }
    } else if month == 4 || month == 6 || month == 9 || month == 11 {
        30
    } else {
        31
    }
}

/// The number of days from the first of January 1970 to the first of
/// January of `year`.
pub open spec fn days_before_year(year: int) -> int
    decreases year,
{
    if year <= 1970 {
        0
    } else {
        days_before_year(year - 1) + days_in_year(year - 1)
    }
}

/// The number of days from the first of January of `year` to the first of
/// the month `month` of that year.
pub open spec fn days_before_month(year: int, month: int) -> int
    decreases month,
{
    if month <= 1 {
        0
    } else {
        days_before_month(year, month - 1) + spec_days_in_month(year, month - 1)
    }
}

/// The number of days from the first of January 1970 to the given day.
pub open spec fn days_since_epoch(year: int, month: int, day: int) -> int {
    days_before_year(year) + days_before_month(year, month) + day - 1
}

fn is_leap(year: u64) -> (leap: bool)
    ensures
        leap == spec_is_leap(year as int),
{
    (year % 4 == 0 && year % 100 != 0) || (year % 400 == 0)
}

fn year_length(year: u64) -> (days: u64)
    ensures
        days == days_in_year(year as int),
{
    if is_leap(year) {
        366
    } else {
        365
    }
}

fn days_in_month(year: u64, month: u64) -> (days: u64)
    requires
        1 <= month <= 12,
    ensures
        days == spec_days_in_month(year as int, month as int),
{
    if month == 2 {
        if is_leap(year) {
            29
        } else {
            28
        }
    } else if month == 4 || month == 6 || month == 9 || month == 11 {
        30
    } else {
        31
    }
}

/// Whether the three numbers are a day of the calendar from 1970 on.
pub open spec fn is_date(year: int, month: int, day: int) -> bool {
    year >= 1970 && 1 <= month <= 12 && 1 <= day <= spec_days_in_month(year, month)
}

proof fn lemma_months_in_order(year: int, first: int, second: int)
    requires
        1 <= first <= second <= 13,
    ensures
        days_before_month(year, first) <= days_before_month(year, second),
    decreases second - first,
{
    if first < second {
        lemma_months_in_order(year, first, second - 1);
    }
}

proof fn lemma_years_in_order(first: int, second: int)
    requires
        1970 <= first <= second,
    ensures
        days_before_year(first) <= days_before_year(second),
    decreases second - first,
{
    if first < second {
        lemma_years_in_order(first, second - 1);
    }
}

proof fn lemma_day_within_year(year: int, month: int, day: int)
    requires
        is_date(year, month, day),
    ensures
        0 <= days_before_month(year, month) + day - 1 < days_in_year(year),
        days_before_year(year) <= days_since_epoch(year, month, day) < days_before_year(year + 1),
{
    lemma_months_in_order(year, 1, month);
    lemma_months_in_order(year, month + 1, 13);
    lemma_year_is_twelve_months(year);
    lemma_years_in_order(1970, year);
}

/// Every day has one date: two dates as many days after the first of
/// January 1970 are the same date.
pub proof fn lemma_date_of_day_is_unique(
    year: int,
    month: int,
    day: int,
    other_year: int,
    other_month: int,
    other_day: int,
)
    requires
        is_date(year, month, day),
        is_date(other_year, other_month, other_day),
        days_since_epoch(year, month, day) == days_since_epoch(
            other_year,
            other_month,
            other_day,
        ),
    ensures
        year == other_year,
        month == other_month,
        day == other_day,
{
    lemma_day_within_year(year, month, day);
    lemma_day_within_year(other_year, other_month, other_day);
    if year < other_year {
        lemma_years_in_order(year + 1, other_year);
    }
    if other_year < year {
        lemma_years_in_order(other_year + 1, year);
    }
    assert(year == other_year);
    if month < other_month {
        lemma_months_in_order(year, month + 1, other_month);
    }
    if other_month < month {
        lemma_months_in_order(year, other_month + 1, month);
    }
}

/// The first of January 1970 is the one day that no day lies before.
pub proof fn lemma_epoch_is_first_of_january_1970(year: int, month: int, day: int)
    requires
        is_date(year, month, day),
        days_since_epoch(year, month, day) == 0,
    ensures
        year == 1970,
        month == 1,
        day == 1,
{
    lemma_date_of_day_is_unique(year, month, day, 1970, 1, 1);
}

proof fn lemma_year_is_twelve_months(year: int)
    ensures
        days_before_month(year, 13) == days_in_year(year),
{
    reveal_with_fuel(days_before_month, 14);
}

/// Splits a number of seconds since the first of January 1970, 0:00:00,
/// into year, month, day, hour, minute and second.
pub fn seconds_to_ymdhms(seconds: u64) -> (date: (u64, u64, u64, u64, u64, u64))
    ensures
        is_date(date.0 as int, date.1 as int, date.2 as int),
        days_since_epoch(date.0 as int, date.1 as int, date.2 as int) == seconds / 86400,
        seconds < 86400 ==> date.0 == 1970 && date.1 == 1 && date.2 == 1,
        date.3 == (seconds / 3600) % 24,
        date.4 == (seconds / 60) % 60,
        date.5 == seconds % 60,
{
    let total_days: u64 = seconds / SECONDS_IN_DAY;
    let hour: u64 = (seconds / SECONDS_IN_HOUR) % 24;
    let minute: u64 = (seconds / SECONDS_IN_MINUTE) % 60;
    let second: u64 = seconds % SECONDS_IN_MINUTE;

    let mut year: u64 = 1970;
    let mut days: u64 = total_days;
    while days >= year_length(year)
        invariant
            year >= 1970,
            days_before_year(year as int) + days == total_days,
            year - 1970 <= total_days - days,
            total_days <= u64::MAX / 86400,
        decreases days,
    {
        days -= year_length(year);
        year += 1;
    }
    let ghost in_year = days;
    let mut month: u64 = 1;
    while days >= days_in_month(year, month)
        invariant
            1 <= month <= 12,
            days_before_month(year as int, month as int) + days == in_year,
            in_year < days_in_year(year as int),
        decreases 12 - month,
    {
        proof {
            lemma_year_is_twelve_months(year as int);
            if month == 12 {
                assert(days_before_month(year as int, 13) == days_before_month(year as int, 12)
                    + spec_days_in_month(year as int, 12));
            }
        }
        days -= days_in_month(year, month);
        month += 1;
    }
    proof {
        if seconds < 86400 {
            lemma_epoch_is_first_of_january_1970(year as int, month as int, days + 1);
        }
    }
    (year, month, days + 1, hour, minute, second)
}

} // verus!
