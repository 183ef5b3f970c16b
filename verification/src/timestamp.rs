//! Rendering a [`SystemTime`] into the exact string the ECAppLog server accepts.
//!
//! The server parses timestamps with the literal Qt format `"yyyy-MM-ddThh:mm:ss.zzz"`, which is
//! *not* RFC 3339: a trailing `Z` or numeric offset makes the parse fail, and so does any
//! fractional precision other than exactly three digits. A failed parse is not an error: the
//! server silently substitutes its own arrival time. A client that emitted RFC 3339 would look
//! like it worked while every row in the GUI showed the wrong time, which is why the formatting
//! lives in one place and is proved.
//!
//! Dates are those of the proleptic Gregorian calendar. [`Date`] says what a date is and
//! [`date_of`] which date a day has; [`utc_text`] says what the rendering of an instant is.

use std::time::SystemTime;

use vstd::prelude::*;
use vstd::string::*;

use crate::clock::{epoch_nanos, since_epoch};
use crate::text::{padded, push_padded};

verus! {

/// Whether a year has a 29 February.
pub open spec fn leap_year(year: int) -> bool {
    year % 4 == 0 && (year % 100 != 0 || year % 400 == 0)
}

/// How many days a month has.
pub open spec fn days_in_month(year: int, month: int) -> int {
    if month == 2 {
        if leap_year(year) { 29 } else { 28 }
    } else if month == 4 || month == 6 || month == 9 || month == 11 {
        30
    } else {
        31
    }
}

/// The days of `year` that come before the first of `month`.
pub open spec fn days_before_month(year: int, month: int) -> int
    decreases month,
{
    if month <= 1 {
        0
    } else {
        days_before_month(year, month - 1) + days_in_month(year, month - 1)
    }
}

/// The days from 1 January of the year 1 to 1 January of `year`.
pub open spec fn days_before_year(year: int) -> int {
    365 * (year - 1) + (year - 1) / 4 - (year - 1) / 100 + (year - 1) / 400
}

/// A date of the proleptic Gregorian calendar, with months and days counted from one.
pub struct Date {
    /// The year, where 0 is the year before 1.
    pub year: int,
    /// The month, 1 to 12.
    pub month: int,
    /// The day of the month, from 1.
    pub day: int,
}

impl Date {
    /// Whether the calendar has this date.
    pub open spec fn valid(self) -> bool {
        &&& 1 <= self.month <= 12
        &&& 1 <= self.day <= days_in_month(self.year, self.month)
    }

    /// The days from 1 January 1970 to this date, negative before it.
    pub open spec fn day_number(self) -> int {
        days_before_year(self.year) - days_before_year(1970) + days_before_month(
            self.year,
            self.month,
        ) + self.day - 1
    }
}

/// The days from the start of a 400-year era, on 1 March, to the start of its year `k`.
spec fn era_year_start(k: int) -> int {
    365 * k + k / 4 - k / 100
}

/// Every day of an era lies in the year that the rounding formula picks.
proof fn lemma_year_of_era(doe: int)
    requires 0 <= doe <= 146_096,
    ensures ({
        let yoe = (doe - doe / 1_460 + doe / 36_524 - doe / 146_096) / 365;
        &&& 0 <= yoe <= 399
        &&& era_year_start(yoe) <= doe
        &&& yoe < 399 ==> doe < era_year_start(yoe + 1)
    }),
{
}


/// The calendar date of the day that lies `days` days after 1 January 1970.
pub open spec fn date_of(days: int) -> Date {
    choose|date: Date| date.valid() && date.day_number() == days
}

/// The days before each month, spelled out.
proof fn lemma_days_before_months(year: int)
    ensures
        ({
            let leap_day: int = if leap_year(year) { 1 } else { 0 };
            &&& days_before_month(year, 1) == 0
            &&& days_before_month(year, 2) == 31
            &&& days_before_month(year, 3) == 59 + leap_day
            &&& days_before_month(year, 4) == 90 + leap_day
            &&& days_before_month(year, 5) == 120 + leap_day
            &&& days_before_month(year, 6) == 151 + leap_day
            &&& days_before_month(year, 7) == 181 + leap_day
            &&& days_before_month(year, 8) == 212 + leap_day
            &&& days_before_month(year, 9) == 243 + leap_day
            &&& days_before_month(year, 10) == 273 + leap_day
            &&& days_before_month(year, 11) == 304 + leap_day
            &&& days_before_month(year, 12) == 334 + leap_day
            &&& days_before_month(year, 13) == 365 + leap_day
        }),
{
    reveal_with_fuel(days_before_month, 14);
}

/// A year is one day longer than 365 exactly when it is a leap year.
proof fn lemma_year_length(year: int)
    ensures
        days_before_year(year + 1) - days_before_year(year) == (if leap_year(year) { 366int } else { 365 }),
{
}

/// The month and day that fall `doy` days after 1 March.
proof fn lemma_march_month(doy: int, mp: int, month: int, day: int)
    requires
        0 <= doy <= 365,
        mp == (5 * doy + 2) / 153,
        day == doy - (153 * mp + 2) / 5 + 1,
        month == mp + (if mp < 10 { 3int } else { -9 }),
    ensures
        0 <= mp <= 11,
        1 <= month <= 12,
        month <= 2 <==> mp >= 10,
        1 <= day <= 31,
        month == 3 ==> doy == day - 1,
        month == 4 ==> doy == 31 + day - 1 && day <= 30,
        month == 5 ==> doy == 61 + day - 1,
        month == 6 ==> doy == 92 + day - 1 && day <= 30,
        month == 7 ==> doy == 122 + day - 1,
        month == 8 ==> doy == 153 + day - 1,
        month == 9 ==> doy == 184 + day - 1 && day <= 30,
        month == 10 ==> doy == 214 + day - 1,
        month == 11 ==> doy == 245 + day - 1 && day <= 30,
        month == 12 ==> doy == 275 + day - 1,
        month == 1 ==> doy == 306 + day - 1,
        month == 2 ==> doy == 337 + day - 1 && day <= 29,
{
}

/// The start of a year that begins in March, within an era of 400 of them.
proof fn lemma_march_year_start(era: int, yoe: int)
    requires
        0 <= yoe <= 399,
    ensures
        ({
            let year = era * 400 + yoe;
            era * 146_097 + era_year_start(yoe) == 365 * year + year / 4 - year / 100 + year / 400
        }),
{
    let year = era * 400 + yoe;
    assert(year / 4 == era * 100 + yoe / 4);
    assert(year / 100 == era * 4 + yoe / 100);
    assert(year / 400 == era);
}

/// The civil date of a day counted from 1 March of the year 0, by 400-year eras.
proof fn lemma_civil(z: int, era: int, doe: int, yoe: int, doy: int, mp: int, date: Date)
    requires
        z == era * 146_097 + doe,
        0 <= doe <= 146_096,
        yoe == (doe - doe / 1_460 + doe / 36_524 - doe / 146_096) / 365,
        doy == doe - (365 * yoe + yoe / 4 - yoe / 100),
        mp == (5 * doy + 2) / 153,
        date.day == doy - (153 * mp + 2) / 5 + 1,
        date.month == mp + (if mp < 10 { 3int } else { -9 }),
        date.year == yoe + era * 400 + (if date.month <= 2 { 1int } else { 0 }),
    ensures
        0 <= yoe <= 399,
        0 <= doy <= 365,
        0 <= mp <= 11,
        date.valid(),
        date.day_number() == z - 719_468,
{
    lemma_year_of_era(doe);
    let march = era * 400 + yoe;
    lemma_march_year_start(era, yoe);
    assert(z == 365 * march + march / 4 - march / 100 + march / 400 + doy);
    lemma_march_month(doy, mp, date.month, date.day);
    lemma_days_before_months(date.year);
    lemma_year_length(march);
    assert(days_before_year(march + 1) == 365 * march + march / 4 - march / 100 + march / 400);
    if date.month <= 2 {
        assert(date.year == march + 1);
        if doy == 365 {
            lemma_march_leap_day(era, yoe, doe);
        }
    } else {
        assert(date.year == march);
    }
}

/// A year that begins in March has a 366th day only if the civil year it ends in is a leap year.
proof fn lemma_march_leap_day(era: int, yoe: int, doe: int)
    requires
        0 <= doe <= 146_096,
        yoe == (doe - doe / 1_460 + doe / 36_524 - doe / 146_096) / 365,
        doe - (365 * yoe + yoe / 4 - yoe / 100) == 365,
    ensures
        leap_year(era * 400 + yoe + 1),
{
    lemma_year_of_era(doe);
    let next = yoe + 1;
    assert(leap_year(next)) by {
        if yoe < 399 {
            assert(era_year_start(next) == era_year_start(yoe) + 366);
        }
    }
    assert((era * 400 + next) % 4 == next % 4);
    assert((era * 400 + next) % 100 == next % 100);
    assert((era * 400 + next) % 400 == next % 400);
}

/// Later years start later, by at least the length of a year.
proof fn lemma_days_before_year_grows(a: int, b: int)
    requires
        a < b,
    ensures
        days_before_year(a + 1) <= days_before_year(b),
    decreases b - a,
{
    if a + 1 < b {
        lemma_days_before_year_grows(a, b - 1);
        lemma_year_length(b - 1);
    }
}

/// Whether date `a` comes before date `b` in the calendar.
pub open spec fn date_before(a: Date, b: Date) -> bool {
    ||| a.year < b.year
    ||| a.year == b.year && a.month < b.month
    ||| a.year == b.year && a.month == b.month && a.day < b.day
}

/// Calendar order is day order: of two dates, the one that comes first in the calendar has the
/// smaller day number.
pub proof fn lemma_day_number_orders_dates(a: Date, b: Date)
    requires
        a.valid(),
        b.valid(),
        date_before(a, b),
    ensures
        a.day_number() < b.day_number(),
{
    lemma_days_before_months(a.year);
    lemma_days_before_months(b.year);
    lemma_year_length(a.year);
    if a.year < b.year {
        lemma_days_before_year_grows(a.year, b.year);
        assert(days_before_month(a.year, a.month) + a.day <= days_before_month(a.year, 13));
        assert(days_before_month(b.year, b.month) >= 0);
    } else if a.month < b.month {
        assert(days_before_month(a.year, a.month) + a.day <= days_before_month(a.year, b.month));
    }
}

/// Each day has one date: the date of a valid date's day number is that date again.
pub proof fn lemma_date_of_day_number(date: Date)
    requires
        date.valid(),
    ensures
        date_of(date.day_number()) == date,
{
    let other = date_of(date.day_number());
    assert(other.valid() && other.day_number() == date.day_number());
    if date_before(date, other) {
        lemma_day_number_orders_dates(date, other);
    }
    if date_before(other, date) {
        lemma_day_number_orders_dates(other, date);
    }
}

/// Every day has a date.
pub proof fn lemma_every_day_has_a_date(days: int)
    ensures
        date_of(days).valid(),
        date_of(days).day_number() == days,
{
    let z = days + 719_468;
    let era = z / 146_097;
    let doe = z - era * 146_097;
    let yoe = (doe - doe / 1_460 + doe / 36_524 - doe / 146_096) / 365;
    let doy = doe - (365 * yoe + yoe / 4 - yoe / 100);
    let mp = (5 * doy + 2) / 153;
    let month = mp + (if mp < 10 { 3int } else { -9 });
    let date = Date {
        year: yoe + era * 400 + (if month <= 2 { 1int } else { 0 }),
        month,
        day: doy - (153 * mp + 2) / 5 + 1,
    };
    lemma_civil(z, era, doe, yoe, doy, mp, date);
    assert(date.valid() && date.day_number() == days);
}

/// `a` divided by `b`, rounded down.
fn floor_div(a: i128, b: i128) -> (quotient: i128)
    requires
        b > 0,
    ensures
        quotient == a as int / b as int,
{
    assert(i128::MIN <= a as int / b as int <= i128::MAX) by (nonlinear_arith)
        requires
            b > 0,
    ;
    a.checked_div_euclid(b).unwrap()
}

/// What is left of `a` after taking out `b` as often as it fits, never negative.
fn floor_rem(a: i128, b: i128) -> (rest: i128)
    requires
        b > 0,
    ensures
        rest == a as int % b as int,
        0 <= rest < b,
{
    assert(0 <= a as int % b as int && (a as int % b as int) < b) by (nonlinear_arith)
        requires
            b > 0,
    ;
    a.checked_rem_euclid(b).unwrap()
}

/// Days since 1970-01-01 to a proleptic Gregorian date: year, month and day.
///
/// Shifts the epoch to 0000-03-01 so that the leap day lands at the end of the 400-year era,
/// which is what removes every special case from the arithmetic.
pub fn civil_from_days(days: i128) -> (date: (i128, u32, u32))
    requires
        days <= i128::MAX - 719_468,
    ensures
        date_of(days as int) == (Date {
            year: date.0 as int,
            month: date.1 as int,
            day: date.2 as int,
        }),
        date_of(days as int).valid(),
        date_of(days as int).day_number() == days,
        i128::MIN < date.0,
{
    let z: i128 = days + 719_468;
    let era: i128 = floor_div(z, 146_097);
    // Day of era, 0 to 146096.
    let doe: i128 = z - era * 146_097;
    // Year of era, 0 to 399.
    let yoe: i128 = (doe - doe / 1_460 + doe / 36_524 - doe / 146_096) / 365;
    proof {
        lemma_year_of_era(doe as int);
    }
    // Day of the year that starts in March, 0 to 365.
    let doy: i128 = doe - (365 * yoe + yoe / 4 - yoe / 100);
    // Month counted from March, 0 to 11.
    let mp: i128 = (5 * doy + 2) / 153;
    let day: i128 = doy - (153 * mp + 2) / 5 + 1;
    let month: i128 = if mp < 10 { mp + 3 } else { mp - 9 };
    let year: i128 = yoe + era * 400 + (if month <= 2 { 1 } else { 0 });
    proof {
        let date = Date { year: year as int, month: month as int, day: day as int };
        lemma_civil(z as int, era as int, doe as int, yoe as int, doy as int, mp as int, date);
        lemma_date_of_day_number(date);
    }
    (year, month as u32, day as u32)
}

/// The rendering of the instant `nanos` nanoseconds after the Unix epoch:
/// `YYYY-MM-DDTHH:MM:SS.mmm` in UTC, with no timezone suffix.
///
/// Everything is rounded down, so an instant before the epoch belongs to the millisecond that it
/// lies in, as one after it does.
pub open spec fn utc_text(nanos: int) -> Seq<char> {
    let millis = nanos / 1_000_000;
    let date = date_of(millis / 86_400_000);
    let second = millis / 1_000 % 86_400;
    padded(date.year, 4) + seq!['-'] + padded(date.month, 2) + seq!['-'] + padded(date.day, 2)
        + seq!['T'] + padded(second / 3_600, 2) + seq![':'] + padded(second % 3_600 / 60, 2)
        + seq![':'] + padded(second % 60, 2) + seq!['.'] + padded(millis % 1_000, 3)
}

/// Renders the instant `nanos` nanoseconds after the Unix epoch.
///
/// Sub-millisecond precision is truncated, not rounded.
pub fn format_nanos(nanos: i128) -> (text: String)
    ensures
        text@ == utc_text(nanos as int),
{
    let total_millis: i128 = floor_div(nanos, 1_000_000);
    let millis: i128 = floor_rem(total_millis, 1_000);
    let secs: i128 = floor_div(total_millis, 1_000);
    let days: i128 = floor_div(secs, 86_400);
    let second: i128 = floor_rem(secs, 86_400);
    let (year, month, day) = civil_from_days(days);
    assert(days == total_millis as int / 86_400_000);

    let mut text = String::new();
    let negative: bool = year < 0;
    let magnitude: u128 = if negative { (-year) as u128 } else { year as u128 };
    push_padded(&mut text, negative, magnitude, 4);
    text.append("-");
    push_padded(&mut text, false, month as u128, 2);
    text.append("-");
    push_padded(&mut text, false, day as u128, 2);
    text.append("T");
    push_padded(&mut text, false, (second / 3_600) as u128, 2);
    text.append(":");
    push_padded(&mut text, false, (second % 3_600 / 60) as u128, 2);
    text.append(":");
    push_padded(&mut text, false, (second % 60) as u128, 2);
    text.append(".");
    push_padded(&mut text, false, millis as u128, 3);
    proof {
        reveal_strlit("-");
        reveal_strlit("T");
        reveal_strlit(":");
        reveal_strlit(".");
        assert("-"@ =~= seq!['-']);
        assert("T"@ =~= seq!['T']);
        assert(":"@ =~= seq![':']);
        assert("."@ =~= seq!['.']);
        assert(text@ =~= utc_text(nanos as int));
    }
    text
}

/// Formats `time` as `YYYY-MM-DDTHH:MM:SS.mmm` in UTC, with no timezone suffix.
///
/// Instants before the epoch render like any other: the clock reports them as a distance
/// backwards, so the sign has to be put back first.
pub fn format_utc(time: SystemTime) -> (text: String)
    ensures
        text@ == utc_text(epoch_nanos(time)),
{
    let nanos: i128 = match since_epoch(time) {
        Ok(after) => after.as_nanos() as i128,
        Err(before) => -(before.as_nanos() as i128),
    };
    format_nanos(nanos)
}

/// The date that follows a date: the next day of the month; after the month's last day, the first
/// of the next month; after 31 December, the first of the next year. April, June, September and
/// November have 30 days, February has 28, or 29 in a year divisible by 4 but not by 100, or by 400,
/// and every other month has 31.
pub open spec fn next_date(year: int, month: int, day: int) -> (int, int, int) {
    let last: int = if month == 2 {
        if year % 400 == 0 || (year % 4 == 0 && year % 100 != 0) {
            29
        } else {
            28
        }
    } else if month == 4 || month == 6 || month == 9 || month == 11 {
        30
    } else {
        31
    };
    if day < last {
        (year, month, day + 1)
    } else if month < 12 {
        (year, month + 1, 1)
    } else {
        (year + 1, 1, 1)
    }
}

/// The day after a date has the date that follows it, and day zero is 1 January 1970.
pub proof fn lemma_dates_follow_one_another(date: Date)
    requires
        date.valid(),
    ensures
        ({
            let next = next_date(date.year, date.month, date.day);
            let after = Date { year: next.0, month: next.1, day: next.2 };
            &&& after.valid()
            &&& after.day_number() == date.day_number() + 1
        }),
        (Date { year: 1970, month: 1, day: 1 }).valid(),
        (Date { year: 1970, month: 1, day: 1 }).day_number() == 0,
{
    let next = next_date(date.year, date.month, date.day);
    lemma_days_before_months(date.year);
    lemma_days_before_months(date.year + 1);
    lemma_year_length(date.year);
    lemma_days_before_months(1970);
}

/// Counting days up counts dates up: the epoch's day is 1 January 1970, and the day after any day
/// has the date that follows that day's date.
pub proof fn lemma_days_count_dates(
    days: i128,
    date: (i128, u32, u32),
    later: i128,
    next: (i128, u32, u32),
)
    requires
        call_ensures(civil_from_days, (days,), date),
        call_ensures(civil_from_days, (later,), next),
        later == days + 1,
    ensures
        days == 0 ==> date == (1970i128, 1u32, 1u32),
        (next.0 as int, next.1 as int, next.2 as int) == next_date(
            date.0 as int,
            date.1 as int,
            date.2 as int,
        ),
        1 <= date.1 <= 12,
        1 <= date.2 <= 31,
{
    lemma_every_day_has_a_date(days as int);
    lemma_every_day_has_a_date(later as int);
    let today = date_of(days as int);
    lemma_dates_follow_one_another(today);
    let follows = next_date(today.year, today.month, today.day);
    lemma_date_of_day_number(Date { year: follows.0, month: follows.1, day: follows.2 });
    lemma_date_of_day_number(Date { year: 1970, month: 1, day: 1 });
}

}
