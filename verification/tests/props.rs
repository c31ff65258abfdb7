use wbdl::util;
use wbdl::Date;
use wbdl::Day;
use wbdl::Hour;
use wbdl::Minute;
use wbdl::Month;
use wbdl::Season;
use wbdl::Second;

#[test]
pub fn epoch_from_timestamp_zero() {
    assert_eq!(Date::try_from_timestamp(0).unwrap(), Date::unix_epoch());
}

#[test]
pub fn fields_from_timestamp_zero() {
    assert_eq!(util::get_date_time(0), [1970, 1, 1, 0, 0, 0]);
}

#[test]
pub fn fields_from_known_timestamp() {
    // One day, one hour, one minute and one second after the epoch.
    assert_eq!(util::get_date_time(86400 + 3661), [1970, 1, 2, 1, 1, 1]);
}

#[test]
pub fn timestamp_across_leap_february() {
    // 1972 is a leap year: day 31 + 29 of 1972 is March 1st.
    let two_years = (365 + 365) * 86400;
    let to_march = (31 + 29) * 86400;
    assert_eq!(util::get_date_time(two_years + to_march), [1972, 3, 1, 0, 0, 0]);
}

#[test]
pub fn second_carry_across_year_boundary() {
    let last = Date::try_from_str("1970-12-31T23:59:59").unwrap();
    let next = Date::try_from_str("1971-1-1T0:0:0").unwrap();
    assert_eq!(last.add_second(), next);
}

#[test]
pub fn day_of_seconds_across_month_boundary() {
    // 86400 single seconds from the last day of a month land on the first
    // second of the next month.
    let mut date = Date::try_from_str("1970-11-30T0:0:0").unwrap();
    for _ in 0..86400 {
        date = date.add_second();
    }
    assert_eq!(date, Date::try_from_str("1970-12-1T0:0:0").unwrap());
}

#[test]
pub fn next_day_in_leap_february() {
    let date = Date::try_from_str("2024-2-28T12:0:0").unwrap();
    assert_eq!(date.next_day(), Date::try_from_str("2024-2-29T0:0:0").unwrap());
}

#[test]
pub fn next_day_in_common_february() {
    let date = Date::try_from_str("2023-2-28T12:0:0").unwrap();
    assert_eq!(date.next_day(), Date::try_from_str("2023-3-1T0:0:0").unwrap());
}

#[test]
pub fn reset_until_years_is_epoch() {
    let date = Date::try_from_str("2024-7-15T13:37:42").unwrap();
    assert_eq!(date.reset_until_years(), Date::unix_epoch());
}

#[test]
pub fn reset_family_floors_fields() {
    let date = Date::try_from_str("2024-7-15T13:37:42").unwrap();
    assert_eq!(date.reset_until_seconds(), Date::try_from_str("2024-7-15T13:37:0").unwrap());
    assert_eq!(date.reset_until_minutes(), Date::try_from_str("2024-7-15T13:0:0").unwrap());
    assert_eq!(date.reset_until_hours(), Date::try_from_str("2024-7-15T0:0:0").unwrap());
    assert_eq!(date.reset_until_days(), Date::try_from_str("2024-7-1T0:0:0").unwrap());
    assert_eq!(date.reset_until_months(), Date::try_from_str("2024-1-1T0:0:0").unwrap());
}

#[test]
pub fn next_family_advances_and_floors() {
    let date = Date::try_from_str("2024-7-15T13:37:42").unwrap();
    assert_eq!(date.next_minute(), Date::try_from_str("2024-7-15T13:38:0").unwrap());
    assert_eq!(date.next_hour(), Date::try_from_str("2024-7-15T14:0:0").unwrap());
    assert_eq!(date.next_month(), Date::try_from_str("2024-8-1T0:0:0").unwrap());
    assert_eq!(date.next_year(), Date::try_from_str("2025-1-1T0:0:0").unwrap());
}

#[test]
pub fn add_month_and_year_keep_lower_fields() {
    let date = Date::try_from_str("2024-11-15T13:37:42").unwrap();
    assert_eq!(date.add_month(), Date::try_from_str("2024-12-15T13:37:42").unwrap());
    assert_eq!(date.add_year(), Date::try_from_str("2025-11-15T13:37:42").unwrap());
    let december = Date::try_from_str("2024-12-15T13:37:42").unwrap();
    assert_eq!(december.add_month(), Date::try_from_str("2025-1-15T13:37:42").unwrap());
}

#[test]
pub fn default_is_epoch() {
    assert_eq!(Date::default(), Date::unix_epoch());
}

#[test]
pub fn canonical_format_has_no_padding() {
    assert_eq!(Date::unix_epoch().to_string(), "1970-1-1T0:0:0");
    let date = Date::try_from_str("2024-2-9T1:2:3").unwrap();
    assert_eq!(date.to_string(), "2024-2-9T1:2:3");
}

#[test]
pub fn round_trip_leap_day() {
    let text = "2024-2-29T23:59:59";
    let date = Date::try_from_str(text).unwrap();
    assert_eq!(date.to_string(), text);
    assert_eq!(Date::try_from(date.to_string()).unwrap(), date);
}

#[test]
pub fn parse_rejects_malformed_text() {
    assert!(Date::try_from_str("").is_err());
    assert!(Date::try_from_str("2024-2-29").is_err());
    assert!(Date::try_from_str("2024-2T0:0:0").is_err());
    assert!(Date::try_from_str("2024-2-29T0:0").is_err());
    assert!(Date::try_from_str("not a date").is_err());
    assert!(Date::try_from_str("2024-x-9T0:0:0").is_err());
}

#[test]
pub fn parse_rejects_out_of_range_fields() {
    assert!(Date::try_from_str("2023-2-29T0:0:0").is_err());
    assert!(Date::try_from_str("2024-13-1T0:0:0").is_err());
    assert!(Date::try_from_str("2024-0-1T0:0:0").is_err());
    assert!(Date::try_from_str("2024-1-0T0:0:0").is_err());
    assert!(Date::try_from_str("2024-1-32T0:0:0").is_err());
    assert!(Date::try_from_str("2024-1-1T24:0:0").is_err());
    assert!(Date::try_from_str("2024-1-1T0:60:0").is_err());
    assert!(Date::try_from_str("2024-1-1T0:0:60").is_err());
    assert!(Date::try_from_str("70000-1-1T0:0:0").is_err());
}

#[test]
pub fn field_range_rejection() {
    assert!(Hour::try_from(24).is_err());
    assert!(Minute::try_from(60).is_err());
    assert!(Second::try_from(60).is_err());
    assert!(Day::try_from((30, 2023, Month::February)).is_err());
    assert!(Day::try_from((0, 2023, Month::February)).is_err());
    assert!(Month::try_from_ordinal(0).is_err());
    assert!(Month::try_from_ordinal(13).is_err());
}

#[test]
pub fn field_range_acceptance() {
    assert_eq!(Hour::try_from(23).unwrap().get(), 23);
    assert_eq!(Minute::try_from(59).unwrap().get(), 59);
    assert_eq!(Second::try_from(59).unwrap().get(), 59);
    assert_eq!(Day::try_from((29, 2024, Month::February)).unwrap().get(), 29);
    assert!(Day::try_from((29, 2023, Month::February)).is_err());
}

#[test]
pub fn field_steps_wrap() {
    assert_eq!(Hour::try_from(23).unwrap().next(), Hour::min());
    assert_eq!(Hour::min().previous(), Hour::max());
    assert_eq!(Minute::try_from(59).unwrap().next(), Minute::min());
    assert_eq!(Minute::min().previous(), Minute::max());
    assert_eq!(Second::try_from(59).unwrap().next(), Second::min());
    assert_eq!(Second::min().previous(), Second::max());
}

#[test]
pub fn day_steps_use_month_context() {
    let last = Day::try_from((28, 2023, Month::February)).unwrap();
    assert_eq!(last.next(2023, Month::February), Day::min());
    assert_eq!(Day::min().previous(2023, Month::March).get(), 28);
    assert_eq!(Day::min().previous(2023, Month::January).get(), 31);
}

#[test]
pub fn day_max_follows_leap_years() {
    assert_eq!(Day::max(2024, Month::February).get(), 29);
    assert_eq!(Day::max(2023, Month::February).get(), 28);
    assert_eq!(Day::max(2023, Month::April).get(), 30);
    assert_eq!(Day::max(2023, Month::December).get(), 31);
}

#[test]
pub fn days_per_month_table() {
    assert_eq!(Day::get_days_per_month(2023), [0, 31, 28, 31, 30, 31, 30, 31, 31, 30, 31, 30, 31]);
    assert_eq!(Day::get_days_per_month(2024), [0, 31, 29, 31, 30, 31, 30, 31, 31, 30, 31, 30, 31]);
}

#[test]
pub fn days_for_year_values() {
    assert_eq!(util::get_days_for_year(2023), 365);
    assert_eq!(util::get_days_for_year(2024), 366);
    assert_eq!(util::get_days_for_year(1900), 365);
    assert_eq!(util::get_days_for_year(2000), 366);
}

#[test]
pub fn season_table_exact() {
    assert_eq!(Month::January.get_season(), Season::Winter);
    assert_eq!(Month::February.get_season(), Season::Spring);
    assert_eq!(Month::March.get_season(), Season::Spring);
    assert_eq!(Month::April.get_season(), Season::Spring);
    assert_eq!(Month::May.get_season(), Season::Summer);
    assert_eq!(Month::June.get_season(), Season::Summer);
    assert_eq!(Month::July.get_season(), Season::Summer);
    assert_eq!(Month::August.get_season(), Season::Autumn);
    assert_eq!(Month::September.get_season(), Season::Autumn);
    assert_eq!(Month::October.get_season(), Season::Summer);
    assert_eq!(Month::November.get_season(), Season::Winter);
    assert_eq!(Month::December.get_season(), Season::Winter);
}

#[test]
pub fn season_ordinals_and_parsing() {
    assert_eq!(Season::Spring.ordinal(), 1);
    assert_eq!(Season::Winter.ordinal(), 4);
    assert_eq!(Season::try_from(1), Ok(Season::Spring));
    assert_eq!(Season::try_from(4), Ok(Season::Winter));
    assert!(Season::try_from(0).is_err());
    assert!(Season::try_from(5).is_err());
}

#[test]
pub fn month_ordinals() {
    assert_eq!(Month::January.ordinal(), 1);
    assert_eq!(Month::December.ordinal(), 12);
    assert_eq!(Month::try_from_ordinal(2), Ok(Month::February));
    assert_eq!(Month::try_from("12"), Ok(Month::December));
    assert!(Month::try_from("0").is_err());
    assert!(Month::try_from("").is_err());
}

#[test]
pub fn parse_accepts_plus_and_leading_zeros() {
    // The segment reader mirrors integer parsing from text: an optional
    // leading '+' and leading zeros are accepted.
    assert_eq!(Month::try_from("+7"), Ok(Month::July));
    assert_eq!(Month::try_from("007"), Ok(Month::July));
    let date = Date::try_from_str("1970-01-01T00:00:00").unwrap();
    assert_eq!(date, Date::unix_epoch());
}

#[test]
pub fn ordering_is_lexicographic() {
    let a = Date::try_from_str("2023-12-31T23:59:59").unwrap();
    let b = Date::try_from_str("2024-1-1T0:0:0").unwrap();
    let c = Date::try_from_str("2024-1-1T0:0:1").unwrap();
    assert!(a < b);
    assert!(b < c);
    assert!(a < c);
    assert!(c > a);
    assert!(a <= a && a >= a);
    assert_eq!(a.partial_cmp(&b), Some(std::cmp::Ordering::Less));
    assert_eq!(b.partial_cmp(&a), Some(std::cmp::Ordering::Greater));
    assert_eq!(a.partial_cmp(&a), Some(std::cmp::Ordering::Equal));
}
