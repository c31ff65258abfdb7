use vstd::prelude::*;

use crate::error::WBDLError;
use crate::text::parse_num;
use crate::text::parse_uint_capped;
use crate::text::str_to_chars;

verus! {

/// The twelve months of the civil calendar, ordered January through December.
#[derive(Debug, Copy, Clone, Ord, PartialOrd, Eq, PartialEq, Structural, Hash)]
pub enum Month {
    January,
    February,
    March,
    April,
    May,
    June,
    July,
    August,
    September,
    October,
    November,
    December,
}

/// The four seasons, in the fixed order used by their ordinals.
#[derive(Debug, Copy, Clone, Ord, PartialOrd, Eq, PartialEq, Structural, Hash)]
pub enum Season {
    Spring,
    Summer,
    Autumn,
    Winter,
}

impl Month {
    /// The 1-based calendar position of the month: January is 1, December 12.
    pub open spec fn ord(self) -> int {
        match self {
            Month::January => 1,
            Month::February => 2,
            Month::March => 3,
            Month::April => 4,
            Month::May => 5,
            Month::June => 6,
            Month::July => 7,
            Month::August => 8,
            Month::September => 9,
            Month::October => 10,
            Month::November => 11,
            Month::December => 12,
        }
    }

    /// The month whose 1-based calendar position is `i` (meaningful for
    /// `1 <= i <= 12`).
    pub open spec fn from_ord(i: int) -> Month {
        if i == 2 {
            Month::February
        } else if i == 3 {
            Month::March
        } else if i == 4 {
            Month::April
        } else if i == 5 {
            Month::May
        } else if i == 6 {
            Month::June
        } else if i == 7 {
            Month::July
        } else if i == 8 {
            Month::August
        } else if i == 9 {
            Month::September
        } else if i == 10 {
            Month::October
        } else if i == 11 {
            Month::November
        } else if i == 12 {
            Month::December
        } else {
            Month::January
        }
    }

    /// The season each month belongs to, by the library's fixed table.
    pub open spec fn spec_season(self) -> Season {
        match self {
            Month::January => Season::Winter,
            Month::February => Season::Spring,
            Month::March => Season::Spring,
            Month::April => Season::Spring,
            Month::May => Season::Summer,
            Month::June => Season::Summer,
            Month::July => Season::Summer,
            Month::August => Season::Autumn,
            Month::September => Season::Autumn,
            Month::October => Season::Summer,
            Month::November => Season::Winter,
            Month::December => Season::Winter,
        }
    }

    pub const MIN: Month = Month::January;

    pub const MAX: Month = Month::December;

    /// The season of this month, by the library's fixed table.
    pub fn get_season(&self) -> (r: Season)
        ensures
            r == self.spec_season(),
    {
        match self {
            Month::January => Season::Winter,
            Month::February => Season::Spring,
            Month::March => Season::Spring,
            Month::April => Season::Spring,
            Month::May => Season::Summer,
            Month::June => Season::Summer,
            Month::July => Season::Summer,
            Month::August => Season::Autumn,
            Month::September => Season::Autumn,
            Month::October => Season::Summer,
            Month::November => Season::Winter,
            Month::December => Season::Winter,
        }
    }

    /// The 1-based calendar position of the month.
    pub fn ordinal(&self) -> (r: usize)
        ensures
            r == self.ord(),
    {
        match self {
            Month::January => 1,
            Month::February => 2,
            Month::March => 3,
            Month::April => 4,
            Month::May => 5,
            Month::June => 6,
            Month::July => 7,
            Month::August => 8,
            Month::September => 9,
            Month::October => 10,
            Month::November => 11,
            Month::December => 12,
        }
    }

    /// The cyclic successor: December wraps to January.
    pub fn next(&self) -> (r: Month)
        ensures
            r == Month::from_ord(if self.ord() == 12 { 1int } else { self.ord() + 1 }),
            r.ord() == if self.ord() == 12 { 1int } else { self.ord() + 1 },
    {
        match self {
            Month::January => Month::February,
            Month::February => Month::March,
            Month::March => Month::April,
            Month::April => Month::May,
            Month::May => Month::June,
            Month::June => Month::July,
            Month::July => Month::August,
            Month::August => Month::September,
            Month::September => Month::October,
            Month::October => Month::November,
            Month::November => Month::December,
            Month::December => Month::January,
        }
    }

    /// The cyclic predecessor: January wraps to December.
    pub fn previous(&self) -> (r: Month)
        ensures
            r == Month::from_ord(if self.ord() == 1 { 12int } else { self.ord() - 1 }),
            r.ord() == if self.ord() == 1 { 12int } else { self.ord() - 1 },
    {
        match self {
            Month::January => Month::December,
            Month::February => Month::January,
            Month::March => Month::February,
            Month::April => Month::March,
            Month::May => Month::April,
            Month::June => Month::May,
            Month::July => Month::June,
            Month::August => Month::July,
            Month::September => Month::August,
            Month::October => Month::September,
            Month::November => Month::October,
            Month::December => Month::November,
        }
    }

    /// The month with the given 1-based calendar position; ordinals outside
    /// `1..=12` are rejected.
    pub fn try_from_ordinal(value: usize) -> (r: Result<Month, WBDLError>)
        ensures
            1 <= value <= 12 ==> r == Ok::<Month, WBDLError>(Month::from_ord(value as int)),
            !(1 <= value <= 12) ==> r == Err::<Month, WBDLError>(WBDLError),
    {
        match value {
            1 => Ok(Month::January),
            2 => Ok(Month::February),
            3 => Ok(Month::March),
            4 => Ok(Month::April),
            5 => Ok(Month::May),
            6 => Ok(Month::June),
            7 => Ok(Month::July),
            8 => Ok(Month::August),
            9 => Ok(Month::September),
            10 => Ok(Month::October),
            11 => Ok(Month::November),
            12 => Ok(Month::December),
            _ => Err(WBDLError),
        }
    }

    /// The month whose 1-based calendar position the text denotes; any
    /// other text is rejected.
    pub fn try_from(value: &str) -> (r: Result<Month, WBDLError>)
        ensures
            r matches Ok(m) ==> parse_uint_capped(value@, 12) == Some(m.ord()) && 1 <= m.ord()
                <= 12,
            r is Err ==> parse_uint_capped(value@, 12) is None || parse_uint_capped(value@, 12)
                == Some(0int),
    {
        let v = str_to_chars(value);
        proof {
            assert(v@.subrange(0, v@.len() as int) =~= value@);
        }
        match parse_num(&v, 0, v.len(), 12) {
            Ok(n) => Month::try_from_ordinal(n as usize),
            Err(e) => Err(e),
        }
    }
}

/// Two months with the same calendar position are the same month.
pub proof fn lemma_month_ord_injective(a: Month, b: Month)
    requires
        a.ord() == b.ord(),
    ensures
        a == b,
{
}

impl Season {
    /// The 1-based position of the season: Spring is 1, Winter 4.
    pub open spec fn ord_spec(self) -> int {
        match self {
            Season::Spring => 1,
            Season::Summer => 2,
            Season::Autumn => 3,
            Season::Winter => 4,
        }
    }

    pub const MIN: Season = Season::Spring;

    pub const MAX: Season = Season::Winter;

    /// The 1-based position of the season.
    pub fn ordinal(&self) -> (r: usize)
        ensures
            r == self.ord_spec(),
    {
        match self {
            Season::Spring => 1,
            Season::Summer => 2,
            Season::Autumn => 3,
            Season::Winter => 4,
        }
    }

    /// The season with the given 1-based position; values outside `1..=4`
    /// are rejected.
    pub fn try_from(value: usize) -> (r: Result<Season, WBDLError>)
        ensures
            r matches Ok(s) ==> 1 <= value <= 4 && s.ord_spec() == value,
            r is Err <==> !(1 <= value <= 4),
    {
        match value {
            1 => Ok(Season::Spring),
            2 => Ok(Season::Summer),
            3 => Ok(Season::Autumn),
            4 => Ok(Season::Winter),
            _ => Err(WBDLError),
        }
    }
}

} // verus!
