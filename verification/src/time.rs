use vstd::prelude::*;

use crate::error::WBDLError;
use crate::month::Month;
use crate::util::is_leap_year;
use crate::util::spec_days_in_month;

verus! {

/// An hour of the day, always in `0..=23`.
#[derive(Copy, Clone, Ord, PartialOrd, Eq, PartialEq, Structural, Default, Hash, Debug)]
pub struct Hour(u8);

/// A minute of the hour, always in `0..=59`.
#[derive(Copy, Clone, Ord, PartialOrd, Eq, PartialEq, Structural, Default, Hash, Debug)]
pub struct Minute(u8);

/// A second of the minute, always in `0..=59`.
#[derive(Copy, Clone, Ord, PartialOrd, Eq, PartialEq, Structural, Default, Hash, Debug)]
pub struct Second(u8);

/// A day of a month, in `1..=31`; which upper bound applies depends on the
/// (year, month) context supplied to each operation.
#[derive(Copy, Clone, Ord, PartialOrd, Eq, PartialEq, Structural, Hash, Debug)]
pub struct Day(u8);

impl View for Hour {
    type V = u8;

    closed spec fn view(&self) -> u8 {
        self.0
    }
}

impl View for Minute {
    type V = u8;

    closed spec fn view(&self) -> u8 {
        self.0
    }
}

impl View for Second {
    type V = u8;

    closed spec fn view(&self) -> u8 {
        self.0
    }
}

impl View for Day {
    type V = u8;

    closed spec fn view(&self) -> u8 {
        self.0
    }
}

impl Hour {
    /// The smallest hour, 0.
    pub fn min() -> (r: Hour)
        ensures
            r@ == 0,
            r.inv(),
    {
        Hour(0)
    }

    /// The largest hour, 23.
    pub fn max() -> (r: Hour)
        ensures
            r@ == 23,
            r.inv(),
    {
        Hour(23)
    }

    /// The value is within the hour range.
    pub open spec fn inv(self) -> bool {
        self@ <= 23
    }

    /// The raw hour value.
    pub fn get(&self) -> (r: u8)
        ensures
            r == self@,
    {
        self.0
    }

    /// Accepts an hour in `0..=23` and rejects anything larger.
    pub fn try_from(value: u8) -> (r: Result<Hour, WBDLError>)
        ensures
            value <= 23 ==> (r matches Ok(h) && h@ == value),
            value > 23 ==> r is Err,
    {
        if value <= 23 {
            Ok(Hour(value))
        } else {
            Err(WBDLError)
        }
    }

    /// The next hour, wrapping 23 to 0.
    pub fn next(&self) -> (r: Hour)
        requires
            self.inv(),
        ensures
            r.inv(),
            r@ == if self@ == 23 { 0int } else { self@ + 1 },
    {
        if self.0 == 23 {
            Hour(0)
        } else {
            Hour(self.0 + 1)
        }
    }

    /// The previous hour, wrapping 0 to 23.
    pub fn previous(&self) -> (r: Hour)
        requires
            self.inv(),
        ensures
            r.inv(),
            r@ == if self@ == 0 { 23int } else { self@ - 1 },
    {
        if self.0 == 0 {
            Hour(23)
        } else {
            Hour(self.0 - 1)
        }
    }
}

impl Minute {
    /// The smallest minute, 0.
    pub fn min() -> (r: Minute)
        ensures
            r@ == 0,
            r.inv(),
    {
        Minute(0)
    }

    /// The largest minute, 59.
    pub fn max() -> (r: Minute)
        ensures
            r@ == 59,
            r.inv(),
    {
        Minute(59)
    }

    /// The value is within the minute range.
    pub open spec fn inv(self) -> bool {
        self@ <= 59
    }

    /// The raw minute value.
    pub fn get(&self) -> (r: u8)
        ensures
            r == self@,
    {
        self.0
    }

    /// Accepts a minute in `0..=59` and rejects anything larger.
    pub fn try_from(value: u8) -> (r: Result<Minute, WBDLError>)
        ensures
            value <= 59 ==> (r matches Ok(m) && m@ == value),
            value > 59 ==> r is Err,
    {
        if value <= 59 {
            Ok(Minute(value))
        } else {
            Err(WBDLError)
        }
    }

    /// The next minute, wrapping 59 to 0.
    pub fn next(&self) -> (r: Minute)
        requires
            self.inv(),
        ensures
            r.inv(),
            r@ == if self@ == 59 { 0int } else { self@ + 1 },
    {
        if self.0 == 59 {
            Minute(0)
        } else {
            Minute(self.0 + 1)
        }
    }

    /// The previous minute, wrapping 0 to 59.
    pub fn previous(&self) -> (r: Minute)
        requires
            self.inv(),
        ensures
            r.inv(),
            r@ == if self@ == 0 { 59int } else { self@ - 1 },
    {
        if self.0 == 0 {
            Minute(59)
        } else {
            Minute(self.0 - 1)
        }
    }
}

impl Second {
    /// The smallest second, 0.
    pub fn min() -> (r: Second)
        ensures
            r@ == 0,
            r.inv(),
    {
        Second(0)
    }

    /// The largest second, 59.
    pub fn max() -> (r: Second)
        ensures
            r@ == 59,
            r.inv(),
    {
        Second(59)
    }

    /// The value is within the second range.
    pub open spec fn inv(self) -> bool {
        self@ <= 59
    }

    /// The raw second value.
    pub fn get(&self) -> (r: u8)
        ensures
            r == self@,
    {
        self.0
    }

    /// Accepts a second in `0..=59` and rejects anything larger.
    pub fn try_from(value: u8) -> (r: Result<Second, WBDLError>)
        ensures
            value <= 59 ==> (r matches Ok(s) && s@ == value),
            value > 59 ==> r is Err,
    {
        if value <= 59 {
            Ok(Second(value))
        } else {
            Err(WBDLError)
        }
    }

    /// The next second, wrapping 59 to 0.
    pub fn next(&self) -> (r: Second)
        requires
            self.inv(),
        ensures
            r.inv(),
            r@ == if self@ == 59 { 0int } else { self@ + 1 },
    {
        if self.0 == 59 {
            Second(0)
        } else {
            Second(self.0 + 1)
        }
    }

    /// The previous second, wrapping 0 to 59.
    pub fn previous(&self) -> (r: Second)
        requires
            self.inv(),
        ensures
            r.inv(),
            r@ == if self@ == 0 { 59int } else { self@ - 1 },
    {
        if self.0 == 0 {
            Second(59)
        } else {
            Second(self.0 - 1)
        }
    }
}

impl Day {
    /// The smallest day, 1.
    pub fn min() -> (r: Day)
        ensures
            r@ == 1,
            r.inv(),
    {
        Day(1)
    }

    /// The value is within the widest day range; validity for a particular
    /// month is relative to the (year, month) context.
    pub open spec fn inv(self) -> bool {
        1 <= self@ <= 31
    }

    /// The raw day value.
    pub fn get(&self) -> (r: u8)
        ensures
            r == self@,
    {
        self.0
    }

    /// The day count of each month of `year`, indexed by the month's 1-based
    /// ordinal; index 0 is unused.
    pub fn get_days_per_month(year: u16) -> (r: [u8; 13])
        ensures
            forall|m: int|
                1 <= m <= 12 ==> r@[m] as int == spec_days_in_month(year as int, m),
            r@.len() == 13,
    {
        [
            0,
            31,
            if is_leap_year(year) {
                29
            } else {
                28
            },
            31,
            30,
            31,
            30,
            31,
            31,
            30,
            31,
            30,
            31,
        ]
    }

    /// The last day of the given month.
    pub fn max(year: u16, month: Month) -> (r: Day)
        ensures
            r@ as int == spec_days_in_month(year as int, month.ord()),
            r.inv(),
    {
        let table = Day::get_days_per_month(year);
        Day(table[month.ordinal()])
    }

    /// Accepts a day in `1..=days_in_month(year, month)` and rejects
    /// anything outside that range.
    pub fn try_from(value: (u8, u16, Month)) -> (r: Result<Day, WBDLError>)
        ensures
            1 <= value.0 && value.0 as int <= spec_days_in_month(value.1 as int, value.2.ord())
                ==> (r matches Ok(d) && d@ == value.0),
            !(1 <= value.0 && value.0 as int <= spec_days_in_month(value.1 as int, value.2.ord()))
                ==> r is Err,
    {
        let limit = Day::max(value.1, value.2);
        if 1 <= value.0 && value.0 <= limit.get() {
            Ok(Day(value.0))
        } else {
            Err(WBDLError)
        }
    }

    /// The next day within the given month, wrapping the month's last day
    /// to 1; the caller advances the month when the wrap happens.
    pub fn next(&self, year: u16, month: Month) -> (r: Day)
        requires
            1 <= self@,
            self@ as int <= spec_days_in_month(year as int, month.ord()),
        ensures
            r.inv(),
            r@ as int == if self@ as int == spec_days_in_month(year as int, month.ord()) {
                1int
            } else {
                self@ + 1
            },
            r@ as int <= spec_days_in_month(year as int, month.ord()),
    {
        let limit = Day::max(year, month);
        if self.0 == limit.get() {
            Day(1)
        } else {
            Day(self.0 + 1)
        }
    }

    /// The previous day, wrapping 1 to the last day of the month before the
    /// given one (of the same supplied year).
    pub fn previous(&self, year: u16, month: Month) -> (r: Day)
        requires
            self.inv(),
        ensures
            r.inv(),
            r@ as int == if self@ == 1 {
                spec_days_in_month(year as int, if month.ord() == 1 { 12int } else { month.ord() - 1 })
            } else {
                self@ - 1
            },
    {
        if self.0 == 1 {
            let limit = Day::max(year, month.previous());
            Day(limit.get())
        } else {
            Day(self.0 - 1)
        }
    }
}

/// Field values with equal views are equal values.
pub proof fn lemma_field_views_injective(h1: Hour, h2: Hour, m1: Minute, m2: Minute, s1: Second, s2: Second, d1: Day, d2: Day)
    ensures
        h1@ == h2@ ==> h1 == h2,
        m1@ == m2@ ==> m1 == m2,
        s1@ == s2@ ==> s1 == s2,
        d1@ == d2@ ==> d1 == d2,
{
}

} // verus!
