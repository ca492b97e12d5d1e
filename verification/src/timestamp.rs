//! UTC timestamps in ISO-8601 form (`2026-02-20T09:11:00Z`) from Unix time.
use vstd::prelude::*;

use crate::json_text::{decimal, digit_char, push_decimal};
use crate::text::push_char;

verus! {

/// Gregorian leap year.
pub open spec fn is_leap_year(year: nat) -> bool {
    (year % 4 == 0 && year % 100 != 0) || year % 400 == 0
}

/// Number of days of a year.
pub open spec fn days_in_year(year: nat) -> nat {
    if is_leap_year(year) { 366 } else { 365 }
}

/// Number of days of a month (1 to 12) of a year.
pub open spec fn days_in_month(year: nat, month: nat) -> nat {
    if month == 2 {
        if is_leap_year(year) { 29 } else { 28 }
    } else if month == 4 || month == 6 || month == 9 || month == 11 {
        30
    } else {
        31
    }
}

/// The year reached, and the day within it (from 0), counting `days` days
/// from the first day of `year`.
pub open spec fn year_and_day(year: nat, days: nat) -> (nat, nat)
    decreases days,
{
    if days < days_in_year(year) {
        (year, days)
    } else {
        year_and_day(year + 1, (days - days_in_year(year)) as nat)
    }
}

/// The month reached, and the day within it (from 0), counting `day` days
/// from the first day of `month` of `year`; December takes what is left.
pub open spec fn month_and_day(year: nat, month: nat, day: nat) -> (nat, nat)
    decreases 12 - month,
{
    if month >= 12 || day < days_in_month(year, month) {
        (month, day)
    } else {
        month_and_day(year, month + 1, (day - days_in_month(year, month)) as nat)
    }
}

/// Days in the months of `year` before `month`.
spec fn days_before_month(year: nat, month: nat) -> nat
    decreases month,
{
    if month <= 1 {
        0
    } else {
        days_before_month(year, (month - 1) as nat) + days_in_month(year, (month - 1) as nat)
    }
}

/// Two decimal digits of a number below 100.
pub open spec fn two_digits(n: nat) -> Seq<char> {
    seq![digit_char(n / 10), digit_char(n % 10)]
}

/// `YYYY-MM-DDThh:mm:ssZ` for a number of seconds since 1970-01-01T00:00:00Z.
pub open spec fn utc_timestamp_text(unix_seconds: nat) -> Seq<char> {
    let (year, day_of_year) = year_and_day(1970, unix_seconds / 86400);
    let (month, day) = month_and_day(year, 1, day_of_year);
    let secs = unix_seconds % 86400;
    decimal(year) + seq!['-'] + two_digits(month) + seq!['-'] + two_digits(day + 1) + seq!['T']
        + two_digits(secs / 3600) + seq![':'] + two_digits(secs % 3600 / 60) + seq![':']
        + two_digits(secs % 60) + seq!['Z']
}

/// Leap years among the years 1 to `y`, by the Gregorian rule in closed form.
pub open spec fn leap_years_through(y: nat) -> int {
    (y / 4) as int - (y / 100) as int + (y / 400) as int
}

/// 1 when `y` (at least 1) is a leap year, 0 otherwise.
pub open spec fn leap_day(y: nat) -> int {
    leap_years_through(y) - leap_years_through((y - 1) as nat)
}

/// Days from 1970-01-01 to the first day of `y`.
pub open spec fn days_before_year(y: nat) -> int {
    365 * (y - 1970) + leap_years_through((y - 1) as nat) - leap_years_through(1969)
}

/// Days of year `y` before the first day of month `m` (1 to 12).
pub open spec fn days_before_month_of(y: nat, m: nat) -> int {
    (if m <= 1 {
        0int
    } else if m == 2 {
        31
    } else if m == 3 {
        59
    } else if m == 4 {
        90
    } else if m == 5 {
        120
    } else if m == 6 {
        151
    } else if m == 7 {
        181
    } else if m == 8 {
        212
    } else if m == 9 {
        243
    } else if m == 10 {
        273
    } else if m == 11 {
        304
    } else {
        334
    }) + (if m > 2 { leap_day(y) } else { 0 })
}

/// Length of month `m` of year `y`: thirty days hath September, April, June
/// and November; February has 28, or 29 in a leap year; the rest have 31.
pub open spec fn month_length(y: nat, m: nat) -> int {
    if m == 2 {
        28 + leap_day(y)
    } else if m == 4 || m == 6 || m == 9 || m == 11 {
        30
    } else {
        31
    }
}

/// Days from 1970-01-01 to day `d` (from 1) of month `m` of year `y`.
pub open spec fn civil_days(y: nat, m: nat, d: nat) -> int {
    days_before_year(y) + days_before_month_of(y, m) + d - 1
}

proof fn lemma_leap_day(y: nat)
    requires
        y >= 1,
    ensures
        leap_day(y) == if is_leap_year(y) { 1int } else { 0int },
        days_in_year(y) == 365 + leap_day(y),
{
    assert(y / 4 - (y - 1) as nat / 4 == if y % 4 == 0 { 1int } else { 0int });
    assert(y / 100 - (y - 1) as nat / 100 == if y % 100 == 0 { 1int } else { 0int });
    assert(y / 400 - (y - 1) as nat / 400 == if y % 400 == 0 { 1int } else { 0int });
    if y % 400 == 0 {
        assert(y % 100 == 0 && y % 4 == 0);
    } else if y % 100 == 0 {
        assert(y % 4 == 0);
    }
}

proof fn lemma_year_and_day(y0: nat, days: nat)
    requires
        y0 >= 1970,
    ensures
        year_and_day(y0, days).0 >= y0,
        year_and_day(y0, days).1 < days_in_year(year_and_day(y0, days).0),
        days_before_year(year_and_day(y0, days).0) + year_and_day(y0, days).1 == days_before_year(y0) + days,
    decreases days,
{
    if days >= days_in_year(y0) {
        lemma_leap_day(y0);
        lemma_year_and_day(y0 + 1, (days - days_in_year(y0)) as nat);
        assert(days_before_year(y0 + 1) == days_before_year(y0) + days_in_year(y0));
    }
}

proof fn lemma_month_steps(y: nat, m: nat)
    requires
        y >= 1,
        1 <= m <= 12,
    ensures
        days_in_month(y, m) == month_length(y, m),
        m < 12 ==> days_before_month_of(y, m + 1) == days_before_month_of(y, m) + days_in_month(y, m),
{
    lemma_leap_day(y);
}

proof fn lemma_month_and_day(y: nat, m: nat, day: nat)
    requires
        y >= 1,
        1 <= m <= 12,
    ensures
        m <= month_and_day(y, m, day).0 <= 12,
        days_before_month_of(y, month_and_day(y, m, day).0) + month_and_day(y, m, day).1
            == days_before_month_of(y, m) + day,
        month_and_day(y, m, day).0 < 12 ==> month_and_day(y, m, day).1 < days_in_month(
            y,
            month_and_day(y, m, day).0,
        ),
    decreases 12 - m,
{
    lemma_month_steps(y, m);
    if !(m >= 12 || day < days_in_month(y, m)) {
        lemma_month_and_day(y, m + 1, (day - days_in_month(y, m)) as nat);
    }
}

/// Calendar law: the timestamp of any Unix time prints the Gregorian date
/// (year from 1970, month 1 to 12, day within the month's length) that lies
/// exactly `unix_seconds / 86400` days after 1970-01-01, counted with the
/// closed-form day count, followed by the time of day.
pub proof fn lemma_utc_timestamp_gregorian(unix_seconds: nat)
    ensures
        exists|y: nat, m: nat, d: nat|
            #[trigger] civil_days(y, m, d) == unix_seconds / 86400
            && y >= 1970 && 1 <= m <= 12 && 1 <= d <= month_length(y, m)
            && utc_timestamp_text(unix_seconds) == decimal(y) + seq!['-'] + two_digits(m) + seq!['-']
                + two_digits(d) + seq!['T'] + two_digits(unix_seconds % 86400 / 3600) + seq![':']
                + two_digits(unix_seconds % 86400 % 3600 / 60) + seq![':'] + two_digits(
                unix_seconds % 86400 % 60,
            ) + seq!['Z'],
{
    let days = unix_seconds / 86400;
    lemma_year_and_day(1970, days);
    let (y, doy) = year_and_day(1970, days);
    lemma_month_and_day(y, 1, doy);
    let (m, d0) = month_and_day(y, 1, doy);
    lemma_month_steps(y, m);
    lemma_leap_day(y);
    assert(days_before_year(1970) == 0);
    assert(d0 < month_length(y, m));
    assert(civil_days(y, m, d0 + 1) == days);
}

fn push_two_digits(out: &mut String, n: u64)
    requires
        n < 100,
    ensures
        final(out)@ == old(out)@ + two_digits(n as nat),
{
    let ghost start = out@;
    push_char(out, (48u8 + (n / 10) as u8) as char);
    push_char(out, (48u8 + (n % 10) as u8) as char);
    assert(out@ =~= start + two_digits(n as nat));
}

fn days_in_year_exec(year: u64) -> (d: u64)
    ensures
        d == days_in_year(year as nat),
{
    if (year % 4 == 0 && year % 100 != 0) || year % 400 == 0 {
        366
    } else {
        365
    }
}

fn days_in_month_exec(year: u64, month: u64) -> (d: u64)
    ensures
        d == days_in_month(year as nat, month as nat),
{
    if month == 2 {
        if (year % 4 == 0 && year % 100 != 0) || year % 400 == 0 {
            29
        } else {
            28
        }
    } else if month == 4 || month == 6 || month == 9 || month == 11 {
        30
    } else {
        31
    }
}

/// The UTC timestamp of a Unix time, in ISO-8601 form.
pub fn utc_timestamp(unix_seconds: u64) -> (s: String)
    ensures
        s@ == utc_timestamp_text(unix_seconds as nat),
{
    let total_days = unix_seconds / 86400;
    let mut year: u64 = 1970;
    let mut days: u64 = total_days;
    while days >= days_in_year_exec(year)
        invariant
            year_and_day(1970, total_days as nat) == year_and_day(year as nat, days as nat),
            1970 <= year,
            year - 1970 + days <= total_days,
            total_days <= u64::MAX / 86400,
        decreases days,
    {
        days = days - days_in_year_exec(year);
        year = year + 1;
    }
    let mut month: u64 = 1;
    let mut day: u64 = days;
    while month < 12 && day >= days_in_month_exec(year, month)
        invariant
            1 <= month <= 12,
            month_and_day(year as nat, 1, days as nat) == month_and_day(year as nat, month as nat, day as nat),
            days < days_in_year(year as nat),
            day + days_before_month(year as nat, month as nat) == days,
        decreases 12 - month,
    {
        day = day - days_in_month_exec(year, month);
        month = month + 1;
    }
    assert(day < 31) by {
        if month == 12 {
            reveal_with_fuel(days_before_month, 12);
        }
    }
    let secs = unix_seconds % 86400;
    let mut out = String::new();
    push_decimal(&mut out, year);
    push_char(&mut out, '-');
    push_two_digits(&mut out, month);
    push_char(&mut out, '-');
    push_two_digits(&mut out, day + 1);
    push_char(&mut out, 'T');
    push_two_digits(&mut out, secs / 3600);
    push_char(&mut out, ':');
    push_two_digits(&mut out, secs % 3600 / 60);
    push_char(&mut out, ':');
    push_two_digits(&mut out, secs % 60);
    push_char(&mut out, 'Z');
    assert(out@ =~= utc_timestamp_text(unix_seconds as nat));
    out
}

} // verus!
