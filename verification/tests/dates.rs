use contribution_grid::date::MAX_DAY;
use contribution_grid::date::MIN_DAY;
use contribution_grid::date::year_at_reading;
use contribution_grid::Date;

#[test]
fn day_numbers_count_from_the_first_of_year_one() {
    assert_eq!(Date::from_ymd(1, 1, 1).unwrap().day_number(), 1);
    assert_eq!(Date::from_ymd(1999, 9, 3).unwrap().day_number(), 730_000);
    assert_eq!(Date::from_ymd(0, 12, 31).unwrap().day_number(), 0);
}

#[test]
fn invalid_calendar_dates_are_refused() {
    assert!(Date::from_ymd(2023, 2, 29).is_none());
    assert!(Date::from_ymd(2023, 0, 1).is_none());
    assert!(Date::from_ymd(2023, 13, 1).is_none());
    assert!(Date::from_ymd(2023, 4, 31).is_none());
    assert!(Date::from_ymd(400_000, 1, 1).is_none());
    assert!(Date::from_ymd(2024, 2, 29).is_some());
    assert!(Date::from_ymd(-4, 2, 29).is_some());
}

#[test]
fn the_range_ends_are_dates() {
    assert_eq!(Date::from_ymd(-262143, 1, 1).unwrap().day_number(), MIN_DAY);
    assert_eq!(Date::from_ymd(262142, 12, 31).unwrap().day_number(), MAX_DAY);
    assert!(Date::from_ymd(262143, 1, 1).is_none());
    assert!(Date::from_day_number(MAX_DAY + 1).is_none());
    assert!(Date::from_day_number(MIN_DAY - 1).is_none());
    assert!(Date::from_day_number(MAX_DAY).is_some());
}

#[test]
fn weekdays_count_from_sunday() {
    assert_eq!(Date::from_ymd(2023, 1, 1).unwrap().weekday_from_sunday(), 0);
    assert_eq!(Date::from_ymd(2023, 1, 7).unwrap().weekday_from_sunday(), 6);
    assert_eq!(Date::from_ymd(2025, 6, 1).unwrap().weekday_from_sunday(), 0);
    assert_eq!(Date::from_ymd(1, 1, 1).unwrap().weekday_from_sunday(), 1);
    assert_eq!(Date::from_day_number(MIN_DAY).unwrap().weekday_from_sunday(), (MIN_DAY.rem_euclid(7)) as u32);
    assert_eq!(Date::from_day_number(MAX_DAY).unwrap().weekday_from_sunday(), (MAX_DAY.rem_euclid(7)) as u32);
    assert_eq!(Date::from_day_number(MAX_DAY).unwrap().day(), 31);
}

#[test]
fn day_of_month() {
    assert_eq!(Date::from_ymd(2024, 2, 29).unwrap().day(), 29);
    assert_eq!(Date::from_ymd(2023, 12, 31).unwrap().day(), 31);
    let next = Date::from_day_number(Date::from_ymd(2023, 12, 31).unwrap().day_number() + 1).unwrap();
    assert_eq!(next, Date::from_ymd(2024, 1, 1).unwrap());
    assert_eq!(next.day(), 1);
}

#[test]
fn dates_read_as_text() {
    assert_eq!(Date::from_ymd(2015, 9, 18).unwrap().text(), b"2015-09-18".to_vec());
    assert_eq!(Date::from_ymd(7, 1, 2).unwrap().text(), b"0007-01-02".to_vec());
    assert_eq!(Date::from_ymd(12345, 6, 7).unwrap().text(), b"+12345-06-07".to_vec());
    assert_eq!(Date::from_ymd(10000, 12, 31).unwrap().text(), b"+10000-12-31".to_vec());
    assert_eq!(Date::from_ymd(-1, 1, 1).unwrap().text(), b"-0001-01-01".to_vec());
    assert_eq!(Date::from_day_number(MIN_DAY).unwrap().text(), b"-262143-01-01".to_vec());
}

#[test]
fn new_year_follows_the_last_day() {
    for year in [-401, -1, 0, 1899, 1900, 2000, 2023, 2024] {
        let last = Date::from_ymd(year, 12, 31).unwrap().day_number();
        let first = Date::from_ymd(year + 1, 1, 1).unwrap().day_number();
        assert_eq!(first, last + 1);
    }
}

#[test]
fn a_clock_reading_gives_its_utc_year() {
    assert_eq!(year_at_reading(0, 0), Some(1970));
    assert_eq!(year_at_reading(1_700_000_000, 0), Some(2023));
    // 29 February 2000, midnight.
    assert_eq!(year_at_reading(951_782_400, 0), Some(2000));
    // The last second of 1969 once the seconds wrap to -1.
    assert_eq!(year_at_reading(u64::MAX, 0), Some(1969));
    assert_eq!(year_at_reading(1 << 62, 0), None);
    assert_eq!(year_at_reading(0, 1_000_000_000), None);
    // A leap second: the last second of a minute may hold up to two.
    assert_eq!(year_at_reading(59, 1_500_000_000), Some(1970));
}
