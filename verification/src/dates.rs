//! Civil dates as plain values: validity, day-of-week, stepping backwards,
//! month keys for the revenue queries, and the `YYYY-MM-DD` formatter.
//!
//! All cron evaluation and all business-day decisions in this crate use one
//! civil-time discipline: the wall clock handed in by the caller (the process
//! uses its local clock at the boundary). Conversions from the clock happen
//! in the two trusted readers at the bottom of this file.

use vstd::prelude::*;

use crate::text::{digit_char, push_digit};

verus! {

/// A calendar date held as plain values.
#[derive(Clone, Copy, PartialEq, Eq, Structural, Debug)]
pub struct CivilDate {
    pub year: i32,
    pub month: u8,
    pub day: u8,
}

/// Gregorian leap year.
pub open spec fn spec_is_leap_year(y: int) -> bool {
    y % 4 == 0 && (y % 100 != 0 || y % 400 == 0)
}

/// Days in a month of the Gregorian calendar.
pub open spec fn spec_days_in_month(y: int, m: int) -> int {
    if m == 2 {
        if spec_is_leap_year(y) {
            29
        } else {
            28
        }
    } else if m == 4 || m == 6 || m == 9 || m == 11 {
        30
    } else {
        31
    }
}

impl CivilDate {
    /// A well-formed date: four-digit-or-less positive year, real month and
    /// day of the Gregorian calendar.
    pub open spec fn valid(self) -> bool {
        1 <= self.year <= 9999 && 1 <= self.month <= 12 && 1 <= self.day
            && self.day <= spec_days_in_month(self.year as int, self.month as int)
    }
}

/// Gregorian leap year.
pub fn is_leap_year(y: i32) -> (r: bool)
    requires
        y >= 1,
    ensures
        r == spec_is_leap_year(y as int),
{
    y % 4 == 0 && (y % 100 != 0 || y % 400 == 0)
}

/// Days in a month.
pub fn days_in_month(y: i32, m: u8) -> (r: u8)
    requires
        y >= 1,
    ensures
        r as int == spec_days_in_month(y as int, m as int),
{
    if m == 2 {
        if is_leap_year(y) {
            29
        } else {
            28
        }
    } else if m == 4 || m == 6 || m == 9 || m == 11 {
        30
    } else {
        31
    }
}

/// Validate plain year, month and day values into a `CivilDate`.
pub fn checked_civil(year: i32, month: u32, day: u32) -> (r: Option<CivilDate>)
    ensures
        r matches Some(d) ==> d.valid() && d.year == year && d.month == month && d.day == day,
        r is None <==> !(1 <= year <= 9999 && 1 <= month <= 12 && 1 <= day
            && day <= spec_days_in_month(year as int, month as int)),
{
    if year < 1 || year > 9999 || month < 1 || month > 12 || day < 1 {
        return None;
    }
    let m = month as u8;
    if day > days_in_month(year, m) as u32 {
        return None;
    }
    Some(CivilDate { year, month: m, day: day as u8 })
}

/// Day of the week of a valid date, `0` = Sunday through `6` = Saturday,
/// by Sakamoto's congruence.
pub open spec fn spec_day_of_week(d: CivilDate) -> int {
    let y: int = if d.month < 3 {
        d.year - 1
    } else {
        d.year as int
    };
    (y + y / 4 - y / 100 + y / 400 + spec_month_dow_term(d.month as int) + d.day) % 7
}

/// Sakamoto's per-month term.
pub open spec fn spec_month_dow_term(m: int) -> int {
    if m == 1 {
        0
    } else if m == 2 {
        3
    } else if m == 3 {
        2
    } else if m == 4 {
        5
    } else if m == 5 {
        0
    } else if m == 6 {
        3
    } else if m == 7 {
        5
    } else if m == 8 {
        1
    } else if m == 9 {
        4
    } else if m == 10 {
        6
    } else if m == 11 {
        2
    } else {
        4
    }
}

/// Day of the week, `0` = Sunday through `6` = Saturday.
pub fn day_of_week(d: &CivilDate) -> (r: u8)
    requires
        d.valid(),
    ensures
        r as int == spec_day_of_week(*d),
        r < 7,
{
    let y: i32 = if d.month < 3 {
        d.year - 1
    } else {
        d.year
    };
    let t: i32 = match d.month {
        1 => 0,
        2 => 3,
        3 => 2,
        4 => 5,
        5 => 0,
        6 => 3,
        7 => 5,
        8 => 1,
        9 => 4,
        10 => 6,
        11 => 2,
        _ => 4,
    };
    let sum: i32 = y + y / 4 - y / 100 + y / 400 + t + d.day as i32;
    (sum % 7) as u8
}

/// Saturday or Sunday.
pub open spec fn spec_is_weekend(d: CivilDate) -> bool {
    spec_day_of_week(d) == 0 || spec_day_of_week(d) == 6
}

/// Saturday or Sunday: the whole-market sources publish nothing on those
/// days, so the suspension job skips them.
pub fn is_weekend(d: &CivilDate) -> (r: bool)
    requires
        d.valid(),
    ensures
        r == spec_is_weekend(*d),
{
    let w = day_of_week(d);
    w == 0 || w == 6
}

/// The day before, borrowing through month and year boundaries. The result
/// for the calendar origin (year 1, January 1st) is not a valid date.
pub open spec fn spec_prev_day(d: CivilDate) -> CivilDate {
    if d.day > 1 {
        CivilDate { year: d.year, month: d.month, day: (d.day - 1) as u8 }
    } else if d.month > 1 {
        CivilDate {
            year: d.year,
            month: (d.month - 1) as u8,
            day: spec_days_in_month(d.year as int, d.month - 1) as u8,
        }
    } else {
        CivilDate { year: (d.year - 1) as i32, month: 12, day: 31 }
    }
}

/// Whether a date is the calendar origin, before which this crate does not
/// step.
pub open spec fn spec_is_origin(d: CivilDate) -> bool {
    d.year == 1 && d.month == 1 && d.day == 1
}

/// The day before.
pub fn prev_day(d: &CivilDate) -> (r: CivilDate)
    requires
        d.valid(),
    ensures
        r == spec_prev_day(*d),
        !spec_is_origin(*d) ==> r.valid(),
{
    if d.day > 1 {
        CivilDate { year: d.year, month: d.month, day: d.day - 1 }
    } else if d.month > 1 {
        CivilDate { year: d.year, month: d.month - 1, day: days_in_month(d.year, d.month - 1) }
    } else {
        CivilDate { year: d.year - 1, month: 12, day: 31 }
    }
}

/// The date `n` days earlier, stopping at the calendar origin.
pub open spec fn spec_sub_days(d: CivilDate, n: nat) -> CivilDate
    decreases n,
{
    if n == 0 || spec_is_origin(d) {
        d
    } else {
        spec_sub_days(spec_prev_day(d), (n - 1) as nat)
    }
}

/// Step a date `n` days back. Used to form the one-month-ago window bound of
/// the daily money-history upsert.
pub fn sub_days(d: &CivilDate, n: u32) -> (r: CivilDate)
    requires
        d.valid(),
    ensures
        r == spec_sub_days(*d, n as nat),
        r.valid(),
{
    let mut cur: CivilDate = *d;
    let mut left: u32 = n;
    while left > 0
        invariant
            cur.valid(),
            spec_sub_days(cur, left as nat) == spec_sub_days(*d, n as nat),
        decreases left,
    {
        if cur.year == 1 && cur.month == 1 && cur.day == 1 {
            proof {
                assert(spec_sub_days(cur, left as nat) == cur);
            }
            return cur;
        }
        cur = prev_day(&cur);
        left = left - 1;
    }
    cur
}

/// The month before a given (year, month) pair.
pub open spec fn spec_prev_month(y: int, m: int) -> (int, int) {
    if m == 1 {
        (y - 1, 12)
    } else {
        (y, m - 1)
    }
}

/// The key a month is stored under in the revenue table: `year * 100 + month`.
pub open spec fn spec_month_key(y: int, m: int) -> int {
    y * 100 + m
}

/// Month keys of the previous month and of the month before it, as the
/// revenue fetch queries them.
pub fn last_two_month_keys(year: i32, month: u8) -> (r: (i32, i32))
    requires
        1 <= year <= 9999,
        1 <= month <= 12,
    ensures
        ({
            let (y1, m1) = spec_prev_month(year as int, month as int);
            r.0 == spec_month_key(y1, m1)
        }),
        ({
            let (y1, m1) = spec_prev_month(year as int, month as int);
            let (y2, m2) = spec_prev_month(y1, m1);
            r.1 == spec_month_key(y2, m2)
        }),
{
    let (y1, m1): (i32, i32) = if month == 1 {
        (year - 1, 12)
    } else {
        (year, month as i32 - 1)
    };
    let (y2, m2): (i32, i32) = if m1 == 1 {
        (y1 - 1, 12)
    } else {
        (y1, m1 - 1)
    };
    (y1 * 100 + m1, y2 * 100 + m2)
}

/// The ten characters of a date written `YYYY-MM-DD`.
pub open spec fn spec_format_ymd(d: CivilDate) -> Seq<char> {
    let y = d.year as int;
    let m = d.month as int;
    let dd = d.day as int;
    seq![
        digit_char((y / 1000 % 10) as nat),
        digit_char((y / 100 % 10) as nat),
        digit_char((y / 10 % 10) as nat),
        digit_char((y % 10) as nat),
        '-',
        digit_char((m / 10) as nat),
        digit_char((m % 10) as nat),
        '-',
        digit_char((dd / 10) as nat),
        digit_char((dd % 10) as nat),
    ]
}

/// Write a date as `YYYY-MM-DD`, the form the store keys its date columns
/// by.
pub fn format_ymd(d: &CivilDate) -> (r: String)
    requires
        d.valid(),
    ensures
        r@ == spec_format_ymd(*d),
{
    let mut out = String::new();
    let y = d.year as u32;
    let m = d.month as u32;
    let dd = d.day as u32;
    push_digit(&mut out, y / 1000 % 10);
    push_digit(&mut out, y / 100 % 10);
    push_digit(&mut out, y / 10 % 10);
    push_digit(&mut out, y % 10);
    proof {
        reveal_strlit("-");
    }
    out.append("-");
    push_digit(&mut out, m / 10);
    push_digit(&mut out, m % 10);
    out.append("-");
    push_digit(&mut out, dd / 10);
    push_digit(&mut out, dd % 10);
    proof {
        assert(out@ =~= spec_format_ymd(*d));
    }
    out
}

/// Reads the local wall clock.
///
/// Relies on chrono's `Local::now` and `NaiveDate`'s `Datelike` accessors:
/// `month()` ranges over 1 to 12 and `day()` over 1 to 31. The value itself
/// depends on the clock, so nothing more is promised.
#[verifier::external_body]
fn read_local_ymd() -> (r: (i32, u32, u32))
    ensures
        1 <= r.1 <= 12,
        1 <= r.2 <= 31,
{
    let now = chrono::Local::now().date_naive();
    (chrono::Datelike::year(&now), chrono::Datelike::month(&now), chrono::Datelike::day(&now))
}

/// Today's date on the local clock, or `None` if the clock is outside the
/// four-digit-year range this crate works in.
pub fn today_local() -> (r: Option<CivilDate>)
    ensures
        r matches Some(d) ==> d.valid(),
{
    let (y, m, d) = read_local_ymd();
    checked_civil(y, m, d)
}

/// Reads the wall clock as whole seconds since the Unix epoch.
///
/// Relies on chrono's `Utc::now().timestamp()`. The value depends on the
/// clock, so nothing is promised of it.
#[verifier::external_body]
pub(crate) fn now_unix_seconds() -> (r: i64)
{
    chrono::Utc::now().timestamp()
}

} // verus!
