use vstd::prelude::*;

use crate::time::Day;

verus! {

pub(crate) const EPOCH_YEAR: u16 = 1970;

/// The Gregorian leap-year rule, over unbounded integers.
pub open spec fn spec_is_leap_year(y: int) -> bool {
    y % 400 == 0 || (y % 4 == 0 && y % 100 != 0)
}

/// The number of days in year `y`: 366 in a leap year, 365 otherwise.
pub open spec fn spec_days_in_year(y: int) -> int {
    if spec_is_leap_year(y) {
        366
    } else {
        365
    }
}

/// The number of days in month `m` (1-based) of year `y`; 0 outside `1..=12`.
pub open spec fn spec_days_in_month(y: int, m: int) -> int {
    if m == 1 {
        31
    } else if m == 2 {
        if spec_is_leap_year(y) {
            29
        } else {
            28
        }
    } else if m == 3 {
        31
    } else if m == 4 {
        30
    } else if m == 5 {
        31
    } else if m == 6 {
        30
    } else if m == 7 {
        31
    } else if m == 8 {
        31
    } else if m == 9 {
        30
    } else if m == 10 {
        31
    } else if m == 11 {
        30
    } else if m == 12 {
        31
    } else {
        0
    }
}

/// The number of days in all years from year 0 up to, and excluding, year `y`.
pub open spec fn days_before_year(y: int) -> int
    decreases y,
{
    if y <= 0 {
        0
    } else {
        days_before_year(y - 1) + spec_days_in_year(y - 1)
    }
}

/// The number of days in year `y` before the first day of month `m` (1-based).
pub open spec fn days_before_month(y: int, m: int) -> int
    decreases m,
{
    if m <= 1 {
        0
    } else {
        days_before_month(y, m - 1) + spec_days_in_month(y, m - 1)
    }
}

/// The signed count of seconds from the epoch (1970-01-01T00:00:00) to the
/// calendar instant (`y`-`m`-`d`T`h`:`mi`:`s`); negative before the epoch.
pub open spec fn seconds_of(y: int, m: int, d: int, h: int, mi: int, s: int) -> int {
    (days_before_year(y) - days_before_year(1970) + days_before_month(y, m) + d - 1) * 86400 + h
        * 3600 + mi * 60 + s
}

/// All six calendar fields are in range, with the day valid for its own
/// (year, month) pair.
pub open spec fn fields_valid(y: int, m: int, d: int, h: int, mi: int, s: int) -> bool {
    &&& 0 <= y <= 65535
    &&& 1 <= m <= 12
    &&& 1 <= d <= spec_days_in_month(y, m)
    &&& 0 <= h < 24
    &&& 0 <= mi < 60
    &&& 0 <= s < 60
}

/// Years further out than `y1` begin no earlier than years up to `y2`.
pub proof fn lemma_days_before_year_monotone(y1: int, y2: int)
    requires
        y1 <= y2,
    ensures
        days_before_year(y1) <= days_before_year(y2),
        days_before_year(y2) - days_before_year(y1) >= 365 * (y2 - y1) || y1 < 0,
    decreases y2 - y1,
{
    if y1 < y2 {
        lemma_days_before_year_monotone(y1, y2 - 1);
    }
}

/// Within a year, the days before month `m` plus that month's own length
/// never exceed the year's length.
pub proof fn lemma_days_before_month_bound(y: int, m: int)
    requires
        1 <= m <= 12,
    ensures
        days_before_month(y, m) + spec_days_in_month(y, m) <= spec_days_in_year(y),
        days_before_month(y, 12) + spec_days_in_month(y, 12) == spec_days_in_year(y),
    decreases 12 - m,
{
    if m == 12 {
        reveal_with_fuel(days_before_month, 13);
    } else {
        lemma_days_before_month_bound(y, m + 1);
    }
}

/// Months are laid out one after the other inside a year.
pub proof fn lemma_days_before_month_monotone(y: int, m1: int, m2: int)
    requires
        1 <= m1 <= m2 <= 12,
    ensures
        days_before_month(y, m1) <= days_before_month(y, m2),
        m1 < m2 ==> days_before_month(y, m1) + spec_days_in_month(y, m1) <= days_before_month(
            y,
            m2,
        ),
    decreases m2 - m1,
{
    if m1 < m2 {
        lemma_days_before_month_monotone(y, m1 + 1, m2);
    }
}

/// The Gregorian leap-year predicate.
pub fn is_leap_year(year: u16) -> (r: bool)
    ensures
        r == spec_is_leap_year(year as int),
{
    year % 400 == 0 || (year % 4 == 0 && year % 100 != 0)
}

/// The number of days in the given year.
pub fn get_days_for_year(year: u16) -> (r: u16)
    ensures
        r == spec_days_in_year(year as int),
{
    if is_leap_year(year) {
        366
    } else {
        365
    }
}

/// Converts a count of whole seconds since the epoch into the six calendar
/// fields `[year, month, day, hour, minute, second]`.
///
/// Timestamps so far out that the year would no longer fit in 16 bits are
/// excluded.
pub fn get_date_time(timestamp: u64) -> (r: [u16; 6])
    requires
        timestamp as int / 86400 < days_before_year(65536) - days_before_year(1970),
    ensures
        fields_valid(r[0] as int, r[1] as int, r[2] as int, r[3] as int, r[4] as int, r[5] as int),
        r[0] >= 1970,
        seconds_of(
            r[0] as int,
            r[1] as int,
            r[2] as int,
            r[3] as int,
            r[4] as int,
            r[5] as int,
        ) == timestamp as int,
{
    let total_days: u64 = timestamp / 86400;
    let mut days: u64 = total_days;
    let mut year: u16 = EPOCH_YEAR;
    while days >= get_days_for_year(year) as u64
        invariant
            1970 <= year <= 65535,
            days_before_year(year as int) - days_before_year(1970) + days as int == total_days as int,
            (total_days as int) < days_before_year(65536) - days_before_year(1970),
        decreases days,
    {
        proof {
            lemma_days_before_year_monotone(year as int + 1, 65536);
        }
        days = days - get_days_for_year(year) as u64;
        year = year + 1;
    }
    let days_per_month: [u8; 13] = Day::get_days_per_month(year);
    let mut month: u8 = 1;
    let mut mdays: u16 = days as u16;
    proof {
        lemma_days_before_month_bound(year as int, 1);
    }
    while mdays >= days_per_month[month as usize] as u16
        invariant
            1 <= month <= 12,
            days < spec_days_in_year(year as int),
            mdays as int == days as int - days_before_month(year as int, month as int),
            forall|m: int|
                1 <= m <= 12 ==> days_per_month[m] as int == spec_days_in_month(year as int, m),
        decreases mdays,
    {
        proof {
            lemma_days_before_month_bound(year as int, month as int);
            if month == 12 {
                assert((mdays as int) < spec_days_in_month(year as int, 12));
            }
        }
        mdays = mdays - days_per_month[month as usize] as u16;
        month = month + 1;
    }
    let day: u16 = mdays + 1;
    let seconds_remaining: u64 = timestamp % 86400;
    let hour: u64 = seconds_remaining / 3600;
    let sub_hour: u64 = seconds_remaining % 3600;
    let minute: u64 = sub_hour / 60;
    let second: u64 = sub_hour % 60;
    proof {
        lemma_days_before_month_bound(year as int, month as int);
    }
    [year, month as u16, day, hour as u16, minute as u16, second as u16]
}

} // verus!
