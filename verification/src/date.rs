use std::cmp::Ordering;

use vstd::prelude::*;

use crate::error::WBDLError;
use crate::month::Month;
use crate::text::chars_to_string;
use crate::text::dec_rep;
use crate::text::find_idx;
use crate::text::find_in_range;
use crate::text::parse_num;
use crate::text::parse_uint_capped;
use crate::text::push_decimal;
use crate::text::str_to_chars;
use crate::time::Day;
use crate::time::Hour;
use crate::time::Minute;
use crate::time::Second;
use crate::util::days_before_year;
use crate::util::fields_valid;
use crate::util::get_date_time;
use crate::util::lemma_days_before_year_monotone;
use crate::util::seconds_of;
use crate::util::spec_days_in_month;
use crate::util::EPOCH_YEAR;

verus! {

/// A calendar instant: a date and a time of day, timezone-naive.
#[derive(Eq, Copy, Clone, PartialEq, Structural, Hash, Debug)]
pub struct Date {
    day: Day,
    month: Month,
    year: u16,
    hour: Hour,
    minute: Minute,
    second: Second,
}

/// The mathematical value of a `Date`: its six fields as plain integers,
/// with the month as its 1-based calendar position.
pub struct DateView {
    pub year: int,
    pub month: int,
    pub day: int,
    pub hour: int,
    pub minute: int,
    pub second: int,
}

impl View for Date {
    type V = DateView;

    closed spec fn view(&self) -> DateView {
        DateView {
            year: self.year as int,
            month: self.month.ord(),
            day: self.day@ as int,
            hour: self.hour@ as int,
            minute: self.minute@ as int,
            second: self.second@ as int,
        }
    }
}

impl DateView {
    /// All six fields are in range, the day being valid for this very
    /// (year, month) pair.
    pub open spec fn wf(self) -> bool {
        fields_valid(self.year, self.month, self.day, self.hour, self.minute, self.second)
    }

    /// The signed count of seconds between the epoch and this instant.
    pub open spec fn seconds(self) -> int {
        seconds_of(self.year, self.month, self.day, self.hour, self.minute, self.second)
    }

    /// The value of the epoch, 1970-01-01T00:00:00.
    pub open spec fn epoch() -> DateView {
        DateView { year: 1970, month: 1, day: 1, hour: 0, minute: 0, second: 0 }
    }
}

/// One year later, other fields untouched.
pub open spec fn step_year(v: DateView) -> DateView {
    DateView { year: v.year + 1, ..v }
}

/// The next month, December carrying into the next year; fields below the
/// month are untouched.
pub open spec fn step_month(v: DateView) -> DateView {
    if v.month == 12 {
        DateView { month: 1, ..step_year(v) }
    } else {
        DateView { month: v.month + 1, ..v }
    }
}

/// The next day, the month's last day carrying into the next month; the
/// time of day is untouched.
pub open spec fn step_day(v: DateView) -> DateView {
    if v.day == spec_days_in_month(v.year, v.month) {
        DateView { day: 1, ..step_month(v) }
    } else {
        DateView { day: v.day + 1, ..v }
    }
}

/// The next hour, hour 23 carrying into the next day.
pub open spec fn step_hour(v: DateView) -> DateView {
    if v.hour == 23 {
        DateView { hour: 0, ..step_day(v) }
    } else {
        DateView { hour: v.hour + 1, ..v }
    }
}

/// The next minute, minute 59 carrying into the next hour.
pub open spec fn step_minute(v: DateView) -> DateView {
    if v.minute == 59 {
        DateView { minute: 0, ..step_hour(v) }
    } else {
        DateView { minute: v.minute + 1, ..v }
    }
}

/// The next second, second 59 carrying into the next minute.
pub open spec fn step_second(v: DateView) -> DateView {
    if v.second == 59 {
        DateView { second: 0, ..step_minute(v) }
    } else {
        DateView { second: v.second + 1, ..v }
    }
}

/// The year still has headroom if the carry out of December would reach it.
pub open spec fn can_add_month(v: DateView) -> bool {
    v.month == 12 ==> v.year < 65535
}

pub open spec fn can_add_day(v: DateView) -> bool {
    v.month == 12 && v.day == 31 ==> v.year < 65535
}

pub open spec fn can_add_hour(v: DateView) -> bool {
    v.month == 12 && v.day == 31 && v.hour == 23 ==> v.year < 65535
}

pub open spec fn can_add_min(v: DateView) -> bool {
    v.month == 12 && v.day == 31 && v.hour == 23 && v.minute == 59 ==> v.year < 65535
}

pub open spec fn can_add_second(v: DateView) -> bool {
    v.month == 12 && v.day == 31 && v.hour == 23 && v.minute == 59 && v.second == 59 ==> v.year
        < 65535
}

/// All fields strictly below the minute set to their minimum.
pub open spec fn floor_seconds(v: DateView) -> DateView {
    DateView { second: 0, ..v }
}

/// All fields strictly below the hour set to their minimum.
pub open spec fn floor_minutes(v: DateView) -> DateView {
    DateView { minute: 0, second: 0, ..v }
}

/// All fields strictly below the day set to their minimum.
pub open spec fn floor_hours(v: DateView) -> DateView {
    DateView { hour: 0, minute: 0, second: 0, ..v }
}

/// All fields strictly below the month set to their minimum.
pub open spec fn floor_days(v: DateView) -> DateView {
    DateView { day: 1, hour: 0, minute: 0, second: 0, ..v }
}

/// All fields strictly below the year set to their minimum.
pub open spec fn floor_months(v: DateView) -> DateView {
    DateView { month: 1, day: 1, hour: 0, minute: 0, second: 0, ..v }
}

/// Lexicographic order over (year, month, day, hour, minute, second).
pub open spec fn date_lt(a: DateView, b: DateView) -> bool {
    if a.year != b.year {
        a.year < b.year
    } else if a.month != b.month {
        a.month < b.month
    } else if a.day != b.day {
        a.day < b.day
    } else if a.hour != b.hour {
        a.hour < b.hour
    } else {
        if a.minute != b.minute {
            a.minute < b.minute
        } else {
            a.second < b.second
        }
    }
}

impl Date {
    /// The instant the timestamp scale starts from: 1970-01-01T00:00:00.
    pub fn unix_epoch() -> (r: Date)
        ensures
            r@ == DateView::epoch(),
            r@.wf(),
    {
        Date {
            month: Month::MIN,
            year: EPOCH_YEAR,
            day: Day::min(),
            hour: Hour::min(),
            second: Second::min(),
            minute: Minute::min(),
        }
    }

    /// The date and time one minute later, carrying into the hour (and
    /// beyond) when the minute wraps; the second is untouched.
    pub fn add_min(self) -> (r: Self)
        requires
            self@.wf(),
            can_add_min(self@),
        ensures
            r@ == step_minute(self@),
            r@.wf(),
            r@.seconds() == self@.seconds() + 60,
    {
        proof {
            crate::laws::lemma_step_minute_seconds(self@);
        }
        let mut s = self;
        if s.minute.get() >= 59 {
            s = s.add_hour();
        }
        s.minute = s.minute.next();
        s
    }

    /// The date and time one hour later, carrying into the day (and beyond)
    /// when the hour wraps; minute and second are untouched.
    pub fn add_hour(self) -> (r: Self)
        requires
            self@.wf(),
            can_add_hour(self@),
        ensures
            r@ == step_hour(self@),
            r@.wf(),
            r@.seconds() == self@.seconds() + 3600,
    {
        proof {
            crate::laws::lemma_step_hour_seconds(self@);
        }
        let mut s = self;
        if s.hour.get() >= 23 {
            s = s.add_day();
        }
        s.hour = s.hour.next();
        s
    }

    /// The date and time one second later, carrying into the minute (and
    /// beyond) when the second wraps.
    pub fn add_second(self) -> (r: Self)
        requires
            self@.wf(),
            can_add_second(self@),
        ensures
            r@ == step_second(self@),
            r@.wf(),
            r@.seconds() == self@.seconds() + 1,
    {
        proof {
            crate::laws::lemma_step_second_seconds(self@);
        }
        let mut s = self;
        if s.second.get() >= 59 {
            s = s.add_min();
        }
        s.second = s.second.next();
        s
    }

    /// The next calendar day, carrying into the month (and beyond) when the
    /// month's last day wraps; the time of day is untouched.
    pub fn add_day(self) -> (r: Self)
        requires
            self@.wf(),
            can_add_day(self@),
        ensures
            r@ == step_day(self@),
            r@.wf(),
            r@.seconds() == self@.seconds() + 86400,
    {
        proof {
            crate::laws::lemma_step_day_seconds(self@);
        }
        let old_year = self.year;
        let old_month = self.month;
        let mut s = self;
        if s.day.get() >= Day::max(old_year, old_month).get() {
            s = s.add_month();
        }
        s.day = self.day.next(old_year, old_month);
        s
    }

    /// The next month, December carrying into the next year; all other
    /// fields, the day included, are untouched, so the result is a valid
    /// date only if the day also fits the new month.
    pub fn add_month(self) -> (r: Self)
        requires
            can_add_month(self@),
        ensures
            r@ == step_month(self@),
    {
        let mut s = self;
        if s.month.ordinal() == 12 {
            s = s.add_year();
        }
        s.month = s.month.next();
        s
    }

    /// The next year; every other field is untouched, so February 29th of a
    /// leap year steps to an invalid date.
    pub fn add_year(self) -> (r: Self)
        requires
            self@.year < 65535,
        ensures
            r@ == step_year(self@),
    {
        let mut s = self;
        s.year = s.year + 1;
        s
    }

    /// One minute later, with the second floored to 0.
    pub fn next_minute(self) -> (r: Self)
        requires
            self@.wf(),
            can_add_min(self@),
        ensures
            r@ == floor_seconds(step_minute(self@)),
            r@.wf(),
    {
        self.add_min().reset_until_seconds()
    }

    /// One hour later, with minute and second floored to 0.
    pub fn next_hour(self) -> (r: Self)
        requires
            self@.wf(),
            can_add_hour(self@),
        ensures
            r@ == floor_minutes(step_hour(self@)),
            r@.wf(),
    {
        self.add_hour().reset_until_minutes()
    }

    /// The start of the next day: one day later, with the time of day
    /// floored to 00:00:00.
    pub fn next_day(self) -> (r: Self)
        requires
            self@.wf(),
            can_add_day(self@),
        ensures
            r@ == floor_hours(step_day(self@)),
            r@.wf(),
    {
        self.add_day().reset_until_hours()
    }

    /// The start of the next month: one month later, with day floored to 1
    /// and the time of day to 00:00:00.
    pub fn next_month(self) -> (r: Self)
        requires
            self@.wf(),
            can_add_month(self@),
        ensures
            r@ == floor_days(step_month(self@)),
            r@.wf(),
    {
        self.add_month().reset_until_days()
    }

    /// The start of the next year: one year later, with every lower field
    /// floored to its minimum.
    pub fn next_year(self) -> (r: Self)
        requires
            self@.year < 65535,
        ensures
            r@ == floor_months(step_year(self@)),
            r@.wf(),
    {
        self.add_year().reset_until_months()
    }

    /// The same instant with the second floored to 0.
    pub fn reset_until_seconds(self) -> (r: Self)
        ensures
            r@ == floor_seconds(self@),
            self@.wf() ==> r@.wf(),
    {
        let mut s = self;
        s.second = Second::min();
        s
    }

    /// The same instant with minute and second floored to 0.
    pub fn reset_until_minutes(self) -> (r: Self)
        ensures
            r@ == floor_minutes(self@),
            self@.wf() ==> r@.wf(),
    {
        let mut s = self;
        s.minute = Minute::min();
        s.reset_until_seconds()
    }

    /// The start of this day: the time of day floored to 00:00:00.
    pub fn reset_until_hours(self) -> (r: Self)
        ensures
            r@ == floor_hours(self@),
            self@.wf() ==> r@.wf(),
    {
        let mut s = self;
        s.hour = Hour::min();
        s.reset_until_minutes()
    }

    /// The start of this month: day floored to 1, time of day to 00:00:00.
    pub fn reset_until_days(self) -> (r: Self)
        ensures
            r@ == floor_days(self@),
            r@.wf(),
    {
        let mut s = self;
        s.day = Day::min();
        s.reset_until_hours()
    }

    /// The start of this year: every field below the year floored to its
    /// minimum.
    pub fn reset_until_months(self) -> (r: Self)
        ensures
            r@ == floor_months(self@),
            r@.wf(),
    {
        let mut s = self;
        s.month = Month::MIN;
        s.reset_until_days()
    }

    /// A pure truncation to the epoch: the year forced to 1970 and every
    /// lower field floored to its minimum, whatever the starting value.
    pub fn reset_until_years(self) -> (r: Self)
        ensures
            r@ == DateView::epoch(),
            r@.wf(),
    {
        let mut s = self;
        s.year = EPOCH_YEAR;
        s.reset_until_months()
    }

    /// Builds the date and time a whole number of seconds after the epoch.
    /// Timestamps so far out that the year would no longer fit in 16 bits
    /// are excluded.
    pub fn try_from_timestamp(value: u64) -> (r: Result<Self, WBDLError>)
        requires
            value as int / 86400 < days_before_year(65536) - days_before_year(1970),
        ensures
            r matches Ok(d) && d@.wf() && d@.seconds() == value as int && d@.year >= 1970,
    {
        let pieces = get_date_time(value);
        let month = match Month::try_from_ordinal(pieces[1] as usize) {
            Ok(m) => m,
            Err(e) => {
                return Err(e);
            },
        };
        let day = match Day::try_from((pieces[2] as u8, pieces[0], month)) {
            Ok(d) => d,
            Err(e) => {
                return Err(e);
            },
        };
        let hour = match Hour::try_from(pieces[3] as u8) {
            Ok(h) => h,
            Err(e) => {
                return Err(e);
            },
        };
        let minute = match Minute::try_from(pieces[4] as u8) {
            Ok(m) => m,
            Err(e) => {
                return Err(e);
            },
        };
        let second = match Second::try_from(pieces[5] as u8) {
            Ok(s) => s,
            Err(e) => {
                return Err(e);
            },
        };
        Ok(Date { year: pieces[0], month, day, hour, minute, second })
    }

    /// The current instant, read once from the system clock; an unreadable
    /// clock, a clock before the epoch, or a time too far out for a 16-bit
    /// year all surface as the error.
    pub fn now() -> (r: Result<Date, WBDLError>)
        ensures
            r matches Ok(d) ==> d@.wf() && d@.year >= 1970,
    {
        match clock_seconds() {
            Ok(secs) => {
                if secs / 86400 < 23201590 {
                    proof {
                        lemma_days_before_year_monotone(1970, 65536);
                    }
                    Date::try_from_timestamp(secs)
                } else {
                    Err(WBDLError)
                }
            },
            Err(e) => Err(e),
        }
    }
}

/// Declares std::time::SystemTime for use in signatures; its values stay
/// opaque and are only handed on to the clock wrappers below.
#[verifier::external_type_specification]
#[verifier::external_body]
pub struct ExSystemTime(std::time::SystemTime);

/// Relies on SystemTime::duration_since: the whole seconds from the Unix
/// epoch to the given instant, or an error when that instant is earlier
/// than the epoch. Nothing can be promised about an opaque instant's value.
#[verifier::external_body]
fn system_time_seconds(value: std::time::SystemTime) -> Result<u64, WBDLError> {
    match value.duration_since(std::time::SystemTime::UNIX_EPOCH) {
        Ok(elapsed) => Ok(elapsed.as_secs()),
        Err(_) => Err(WBDLError),
    }
}

/// Relies on std::time::SystemTime: `SystemTime::UNIX_EPOCH.elapsed()` is
/// the wall clock's count of whole seconds since the Unix epoch, or an error
/// when the clock reads earlier than the epoch or cannot be read. Nothing
/// can be promised about a clock reading.
#[verifier::external_body]
fn clock_seconds() -> Result<u64, WBDLError> {
    match std::time::SystemTime::UNIX_EPOCH.elapsed() {
        Ok(elapsed) => Ok(elapsed.as_secs()),
        Err(_) => Err(WBDLError),
    }
}

/// Dates with equal views are equal, and conversely.
pub proof fn lemma_date_view_injective(a: Date, b: Date)
    ensures
        a@ == b@ <==> a == b,
{
    if a@ == b@ {
        crate::time::lemma_field_views_injective(
            a.hour,
            b.hour,
            a.minute,
            b.minute,
            a.second,
            b.second,
            a.day,
            b.day,
        );
        crate::month::lemma_month_ord_injective(a.month, b.month);
    }
}

impl Default for Date {
    /// The default date is the epoch.
    fn default() -> (r: Self)
        ensures
            r@ == DateView::epoch(),
    {
        Date::unix_epoch()
    }
}

impl Date {
    /// Lexicographic comparison over the six fields, from year down to
    /// second.
    fn lt_inner(&self, other: &Date) -> (r: bool)
        ensures
            r == date_lt(self@, other@),
    {
        if self.year != other.year {
            return self.year < other.year;
        }
        let sm = self.month.ordinal();
        let om = other.month.ordinal();
        if sm != om {
            return sm < om;
        }
        if self.day.get() != other.day.get() {
            return self.day.get() < other.day.get();
        }
        if self.hour.get() != other.hour.get() {
            return self.hour.get() < other.hour.get();
        }
        if self.minute.get() != other.minute.get() {
            return self.minute.get() < other.minute.get();
        }
        self.second.get() < other.second.get()
    }

    /// Field-wise equality, through the views.
    fn eq_inner(&self, other: &Date) -> (r: bool)
        ensures
            r == (self@ == other@),
    {
        proof {
            lemma_date_view_injective(*self, *other);
        }
        self.year == other.year && self.month.ordinal() == other.month.ordinal()
            && self.day.get() == other.day.get() && self.hour.get() == other.hour.get()
            && self.minute.get() == other.minute.get() && self.second.get() == other.second.get()
    }
}

impl PartialOrd for Date {
    fn partial_cmp(&self, other: &Self) -> (r: Option<Ordering>) {
        if self.eq_inner(other) {
            Some(Ordering::Equal)
        } else if self.lt_inner(other) {
            Some(Ordering::Less)
        } else {
            Some(Ordering::Greater)
        }
    }

    fn lt(&self, other: &Self) -> (r: bool) {
        !self.eq_inner(other) && self.lt_inner(other)
    }

    fn le(&self, other: &Self) -> (r: bool) {
        self.eq_inner(other) || self.lt_inner(other)
    }

    fn gt(&self, other: &Self) -> (r: bool) {
        !self.eq_inner(other) && !self.lt_inner(other)
    }

    fn ge(&self, other: &Self) -> (r: bool) {
        self.eq_inner(other) || !self.lt_inner(other)
    }
}

/// The canonical text of a date: the six fields in shortest decimal form,
/// joined by '-', 'T' and ':', with no zero padding.
pub open spec fn text_of(v: DateView) -> Seq<char> {
    dec_rep(v.year) + seq!['-'] + dec_rep(v.month) + seq!['-'] + dec_rep(v.day) + seq!['T']
        + dec_rep(v.hour) + seq![':'] + dec_rep(v.minute) + seq![':'] + dec_rep(v.second)
}

/// The date a text form denotes, if any: the part before the first 'T' is
/// split at its first two '-' into year, month and day segments, the part
/// between the first and second 'T' at its first two ':' into hour, minute
/// and second segments (whatever follows a third separator is ignored);
/// each segment must be an unsigned decimal number, and the six values must
/// form a valid date.
pub open spec fn date_of_text(s: Seq<char>) -> Option<DateView> {
    let t1 = find_idx(s, 'T');
    if t1 == s.len() {
        None
    } else {
        let date_part = s.subrange(0, t1);
        let rest = s.subrange(t1 + 1, s.len() as int);
        let time_part = rest.subrange(0, find_idx(rest, 'T'));
        let p1 = find_idx(date_part, '-');
        if p1 == date_part.len() {
            None
        } else {
            let yseg = date_part.subrange(0, p1);
            let drest = date_part.subrange(p1 + 1, date_part.len() as int);
            let p2 = find_idx(drest, '-');
            if p2 == drest.len() {
                None
            } else {
                let mseg = drest.subrange(0, p2);
                let drest2 = drest.subrange(p2 + 1, drest.len() as int);
                let dseg = drest2.subrange(0, find_idx(drest2, '-'));
                let q1 = find_idx(time_part, ':');
                if q1 == time_part.len() {
                    None
                } else {
                    let hseg = time_part.subrange(0, q1);
                    let trest = time_part.subrange(q1 + 1, time_part.len() as int);
                    let q2 = find_idx(trest, ':');
                    if q2 == trest.len() {
                        None
                    } else {
                        let miseg = trest.subrange(0, q2);
                        let trest2 = trest.subrange(q2 + 1, trest.len() as int);
                        let sseg = trest2.subrange(0, find_idx(trest2, ':'));
                        date_of_segments(yseg, mseg, dseg, hseg, miseg, sseg)
                    }
                }
            }
        }
    }
}

/// The date the six text segments denote, if each is a decimal number and
/// the values form a valid date.
pub open spec fn date_of_segments(
    yseg: Seq<char>,
    mseg: Seq<char>,
    dseg: Seq<char>,
    hseg: Seq<char>,
    miseg: Seq<char>,
    sseg: Seq<char>,
) -> Option<DateView> {
    match parse_uint_capped(yseg, 65535) {
        None => None,
        Some(y) => match parse_uint_capped(mseg, 12) {
            None => None,
            Some(m) => if m < 1 {
                None
            } else {
                match parse_uint_capped(dseg, spec_days_in_month(y, m)) {
                    None => None,
                    Some(d) => if d < 1 {
                        None
                    } else {
                        match parse_uint_capped(hseg, 23) {
                            None => None,
                            Some(h) => match parse_uint_capped(miseg, 59) {
                                None => None,
                                Some(mi) => match parse_uint_capped(sseg, 59) {
                                    None => None,
                                    Some(sec) => Some(
                                        DateView {
                                            year: y,
                                            month: m,
                                            day: d,
                                            hour: h,
                                            minute: mi,
                                            second: sec,
                                        },
                                    ),
                                },
                            },
                        }
                    },
                }
            },
        },
    }
}

impl Date {
    /// The canonical text form of this date,
    /// `<year>-<month>-<day>T<hour>:<minute>:<second>` with no zero padding.
    pub fn to_string(&self) -> (r: String)
        ensures
            r@ == text_of(self@),
    {
        let mut out: Vec<char> = Vec::new();
        push_decimal(&mut out, self.year as u64);
        out.push('-');
        push_decimal(&mut out, self.month.ordinal() as u64);
        out.push('-');
        push_decimal(&mut out, self.day.get() as u64);
        out.push('T');
        push_decimal(&mut out, self.hour.get() as u64);
        out.push(':');
        push_decimal(&mut out, self.minute.get() as u64);
        out.push(':');
        push_decimal(&mut out, self.second.get() as u64);
        let r = chars_to_string(&out);
        proof {
            assert(out@ =~= text_of(self@));
        }
        r
    }

    /// Builds the date a text form denotes, rejecting any other text.
    #[verifier::rlimit(100)]
    #[verifier::spinoff_prover]
    pub fn try_from_str(value: &str) -> (r: Result<Date, WBDLError>)
        ensures
            r matches Ok(d) ==> date_of_text(value@) == Some(d@) && d@.wf(),
            r is Err ==> date_of_text(value@) is None,
    {
        let v = str_to_chars(value);
        let n = v.len();
        let t1 = find_in_range(&v, 0, n, 'T');
        proof {
            assert(v@.subrange(0, n as int) =~= v@);
        }
        if t1 == n {
            return Err(WBDLError);
        }
        let t2 = find_in_range(&v, t1 + 1, n, 'T');
        let p1 = find_in_range(&v, 0, t1, '-');
        proof {
            assert(v@.subrange(0, t1 as int) =~= v@.subrange(0, v@.len() as int).subrange(
                0,
                t1 as int,
            ));
        }
        if p1 == t1 {
            return Err(WBDLError);
        }
        let p2 = find_in_range(&v, p1 + 1, t1, '-');
        proof {
            assert(v@.subrange(p1 + 1, t1 as int) =~= v@.subrange(0, t1 as int).subrange(
                p1 + 1,
                t1 as int,
            ));
        }
        if p2 == t1 {
            return Err(WBDLError);
        }
        let p3 = find_in_range(&v, p2 + 1, t1, '-');
        proof {
            assert(v@.subrange(p2 + 1, t1 as int) =~= v@.subrange(p1 + 1, t1 as int).subrange(
                p2 - p1,
                t1 - p1 - 1,
            ));
        }
        let ghost time_part = v@.subrange(t1 + 1, n as int).subrange(
            0,
            find_idx(v@.subrange(t1 + 1, n as int), 'T'),
        );
        proof {
            assert(time_part =~= v@.subrange(t1 + 1, t2 as int));
        }
        let q1 = find_in_range(&v, t1 + 1, t2, ':');
        proof {
            assert(v@.subrange(t1 + 1, t2 as int) =~= time_part);
        }
        if q1 == t2 {
            return Err(WBDLError);
        }
        let q2 = find_in_range(&v, q1 + 1, t2, ':');
        proof {
            assert(v@.subrange(q1 + 1, t2 as int) =~= time_part.subrange(
                q1 - t1,
                time_part.len() as int,
            ));
        }
        if q2 == t2 {
            return Err(WBDLError);
        }
        let q3 = find_in_range(&v, q2 + 1, t2, ':');
        proof {
            assert(v@.subrange(q2 + 1, t2 as int) =~= v@.subrange(q1 + 1, t2 as int).subrange(
                q2 - q1,
                t2 - q1 - 1,
            ));
        }
        proof {
            assert(v@.subrange(0, p1 as int) =~= v@.subrange(0, t1 as int).subrange(0, p1 as int));
            assert(v@.subrange(p1 + 1, p2 as int) =~= v@.subrange(p1 + 1, t1 as int).subrange(
                0,
                p2 - p1 - 1,
            ));
            assert(v@.subrange(p2 + 1, p3 as int) =~= v@.subrange(p2 + 1, t1 as int).subrange(
                0,
                p3 - p2 - 1,
            ));
            assert(v@.subrange(t1 + 1, q1 as int) =~= time_part.subrange(0, q1 - t1 - 1));
            assert(v@.subrange(q1 + 1, q2 as int) =~= v@.subrange(q1 + 1, t2 as int).subrange(
                0,
                q2 - q1 - 1,
            ));
            assert(v@.subrange(q2 + 1, q3 as int) =~= v@.subrange(q2 + 1, t2 as int).subrange(
                0,
                q3 - q2 - 1,
            ));
        }
        let year32 = match parse_num(&v, 0, p1, 65535) {
            Ok(y) => y,
            Err(e) => {
                return Err(e);
            },
        };
        let month32 = match parse_num(&v, p1 + 1, p2, 12) {
            Ok(m) => m,
            Err(e) => {
                return Err(e);
            },
        };
        let year = year32 as u16;
        let month = match Month::try_from_ordinal(month32 as usize) {
            Ok(m) => m,
            Err(e) => {
                return Err(e);
            },
        };
        let day_cap = Day::max(year, month).get() as u32;
        let day32 = match parse_num(&v, p2 + 1, p3, day_cap) {
            Ok(d) => d,
            Err(e) => {
                return Err(e);
            },
        };
        let day = match Day::try_from((day32 as u8, year, month)) {
            Ok(d) => d,
            Err(e) => {
                return Err(e);
            },
        };
        let hour32 = match parse_num(&v, t1 + 1, q1, 23) {
            Ok(h) => h,
            Err(e) => {
                return Err(e);
            },
        };
        let hour = match Hour::try_from(hour32 as u8) {
            Ok(h) => h,
            Err(e) => {
                return Err(e);
            },
        };
        let minute32 = match parse_num(&v, q1 + 1, q2, 59) {
            Ok(m) => m,
            Err(e) => {
                return Err(e);
            },
        };
        let minute = match Minute::try_from(minute32 as u8) {
            Ok(m) => m,
            Err(e) => {
                return Err(e);
            },
        };
        let second32 = match parse_num(&v, q2 + 1, q3, 59) {
            Ok(s) => s,
            Err(e) => {
                return Err(e);
            },
        };
        let second = match Second::try_from(second32 as u8) {
            Ok(s) => s,
            Err(e) => {
                return Err(e);
            },
        };
        Ok(Date { year, month, day, hour, minute, second })
    }

    /// The date and time a system-clock instant falls on; instants before
    /// the epoch, or too far out for a 16-bit year, surface as the error.
    pub fn try_from_system_time(value: std::time::SystemTime) -> (r: Result<Date, WBDLError>)
        ensures
            r matches Ok(d) ==> d@.wf() && d@.year >= 1970,
    {
        match system_time_seconds(value) {
            Ok(secs) => {
                if secs / 86400 < 23201590 {
                    proof {
                        lemma_days_before_year_monotone(1970, 65536);
                    }
                    Date::try_from_timestamp(secs)
                } else {
                    Err(WBDLError)
                }
            },
            Err(e) => Err(e),
        }
    }

    /// Builds the date a text form denotes, rejecting any other text.
    pub fn try_from(value: String) -> (r: Result<Date, WBDLError>)
        ensures
            r matches Ok(d) ==> date_of_text(value@) == Some(d@) && d@.wf(),
            r is Err ==> date_of_text(value@) is None,
    {
        Date::try_from_str(value.as_str())
    }
}

impl vstd::std_specs::cmp::PartialOrdSpecImpl for Date {
    open spec fn obeys_partial_cmp_spec() -> bool {
        true
    }

    open spec fn partial_cmp_spec(&self, other: &Date) -> Option<Ordering> {
        if self@ == other@ {
            Some(Ordering::Equal)
        } else if date_lt(self@, other@) {
            Some(Ordering::Less)
        } else {
            Some(Ordering::Greater)
        }
    }
}

} // verus!
