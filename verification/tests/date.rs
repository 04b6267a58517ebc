use xkcdfs::date::{ReleaseDate, MAX_YEAR, MIN_YEAR, SECONDS_PER_DAY};

fn is_leap(year: i64) -> bool {
    year.rem_euclid(4) == 0 && (year.rem_euclid(100) != 0 || year.rem_euclid(400) == 0)
}

fn month_length(year: i64, month: i64) -> i64 {
    match month {
        2 => {
            if is_leap(year) {
                29
            } else {
                28
            }
        }
        4 | 6 | 9 | 11 => 30,
        _ => 31,
    }
}

fn closed_form_timestamp(year: i64, month: i64, day: i64) -> i64 {
    let y = year - 1;
    let before_year = 365 * y + y.div_euclid(4) - y.div_euclid(100) + y.div_euclid(400);
    let mut before_month = 0;
    for m in 1..month {
        before_month += month_length(year, m);
    }
    86400 * (before_year + before_month + (day - 1) - 719162)
}

fn date(year: i32, month: u32, day: u32) -> ReleaseDate {
    ReleaseDate::new(year, month, day).unwrap()
}

#[test]
fn new_accepts_days_of_the_calendar() {
    assert!(ReleaseDate::new(2015, 3, 14).is_some());
    assert!(ReleaseDate::new(2024, 2, 29).is_some());
    assert!(ReleaseDate::new(2000, 2, 29).is_some());
    assert!(ReleaseDate::new(-4, 2, 29).is_some());
    assert!(ReleaseDate::new(0, 2, 29).is_some());
    assert!(ReleaseDate::new(MIN_YEAR, 1, 1).is_some());
    assert!(ReleaseDate::new(MAX_YEAR, 12, 31).is_some());
}

#[test]
fn new_rejects_what_is_no_day() {
    assert!(ReleaseDate::new(2015, 0, 14).is_none());
    assert!(ReleaseDate::new(2015, 13, 1).is_none());
    assert!(ReleaseDate::new(2015, 1, 0).is_none());
    assert!(ReleaseDate::new(2015, 1, 32).is_none());
    assert!(ReleaseDate::new(2015, 2, 29).is_none());
    assert!(ReleaseDate::new(1900, 2, 29).is_none());
    assert!(ReleaseDate::new(2023, 4, 31).is_none());
    assert!(ReleaseDate::new(0, 0, 0).is_none());
    assert!(ReleaseDate::new(MIN_YEAR - 1, 12, 31).is_none());
    assert!(ReleaseDate::new(MAX_YEAR + 1, 1, 1).is_none());
    assert!(ReleaseDate::new(400000, 1, 1).is_none());
    assert!(ReleaseDate::new(-400000, 1, 1).is_none());
    assert!(ReleaseDate::new(i32::MAX, 1, 1).is_none());
    assert!(ReleaseDate::new(2015, u32::MAX, 1).is_none());
}

#[test]
fn new_agrees_with_the_month_lengths() {
    for year in [-401, -400, -100, -4, -1, 0, 1, 4, 100, 400, 1900, 1970, 2000, 2023, 2024] {
        for month in 0..=13u32 {
            for day in 0..=32u32 {
                let expected = (1..=12).contains(&month)
                    && day >= 1
                    && (day as i64) <= month_length(year as i64, month as i64);
                assert_eq!(
                    ReleaseDate::new(year, month, day).is_some(),
                    expected,
                    "{year}-{month}-{day}"
                );
            }
        }
    }
}

#[test]
fn getters_give_back_the_parts() {
    let d = date(2006, 1, 2);
    assert_eq!((d.year(), d.month(), d.day()), (2006, 1, 2));
    let e = ReleaseDate::epoch();
    assert_eq!((e.year(), e.month(), e.day()), (1970, 1, 1));
    assert_eq!(e, date(1970, 1, 1));
}

#[test]
fn text_of_common_years() {
    assert_eq!(date(2015, 9, 5).to_text(), "2015-09-05");
    assert_eq!(date(2006, 1, 1).to_text(), "2006-01-01");
    assert_eq!(date(1970, 1, 1).to_text(), "1970-01-01");
    assert_eq!(date(0, 1, 1).to_text(), "0000-01-01");
    assert_eq!(date(7, 12, 31).to_text(), "0007-12-31");
    assert_eq!(date(123, 10, 20).to_text(), "0123-10-20");
    assert_eq!(date(9999, 12, 31).to_text(), "9999-12-31");
}

#[test]
fn text_of_signed_years() {
    assert_eq!(date(-1, 1, 1).to_text(), "-0001-01-01");
    assert_eq!(date(-12, 3, 4).to_text(), "-0012-03-04");
    assert_eq!(date(-123, 3, 4).to_text(), "-0123-03-04");
    assert_eq!(date(-1234, 3, 4).to_text(), "-1234-03-04");
    assert_eq!(date(-12345, 3, 4).to_text(), "-12345-03-04");
    assert_eq!(date(10000, 12, 31).to_text(), "+10000-12-31");
    assert_eq!(date(MAX_YEAR, 12, 31).to_text(), "+262142-12-31");
    assert_eq!(date(MIN_YEAR, 1, 1).to_text(), "-262143-01-01");
}

#[test]
fn timestamps_of_known_days() {
    assert_eq!(date(1970, 1, 1).as_timestamp(), 0);
    assert_eq!(date(1970, 1, 2).as_timestamp(), 86400);
    assert_eq!(date(1969, 12, 31).as_timestamp(), -86400);
    assert_eq!(date(2015, 5, 15).as_timestamp(), 1431648000);
    assert_eq!(date(2000, 3, 1).as_timestamp(), 951868800);
    assert_eq!(date(2038, 1, 19).as_timestamp(), 2147472000);
    assert_eq!(date(1, 1, 1).as_timestamp(), -62135596800);
    assert_eq!(SECONDS_PER_DAY, 86400);
}

#[test]
fn timestamps_follow_the_closed_form() {
    for year in [
        MIN_YEAR, -100001, -401, -400, -399, -101, -100, -5, -4, -1, 0, 1, 2, 3, 4, 5, 99, 100, 101,
        399, 400, 401, 1582, 1899, 1900, 1901, 1969, 1970, 1971, 1999, 2000, 2001, 2023, 2024,
        2100, 9999, 10000, MAX_YEAR,
    ] {
        for month in 1..=12u32 {
            for day in [1u32, 2, 15, 28, 29, 30, 31] {
                if let Some(d) = ReleaseDate::new(year, month, day) {
                    assert_eq!(
                        d.as_timestamp(),
                        closed_form_timestamp(year as i64, month as i64, day as i64),
                        "{year}-{month}-{day}"
                    );
                }
            }
        }
    }
}

#[test]
fn from_timestamp_finds_the_day() {
    assert_eq!(ReleaseDate::from_timestamp(0), Some(date(1970, 1, 1)));
    assert_eq!(ReleaseDate::from_timestamp(86399), Some(date(1970, 1, 1)));
    assert_eq!(ReleaseDate::from_timestamp(86400), Some(date(1970, 1, 2)));
    assert_eq!(ReleaseDate::from_timestamp(-1), Some(date(1969, 12, 31)));
    assert_eq!(ReleaseDate::from_timestamp(-86400), Some(date(1969, 12, 31)));
    assert_eq!(ReleaseDate::from_timestamp(-86401), Some(date(1969, 12, 30)));
    assert_eq!(ReleaseDate::from_timestamp(1431648000), Some(date(2015, 5, 15)));
    assert_eq!(ReleaseDate::from_timestamp(1431648000 + 43200), Some(date(2015, 5, 15)));
}

#[test]
fn from_timestamp_round_trips() {
    for year in [MIN_YEAR, -4, 0, 1, 1969, 1970, 2000, 2024, 9999, 10000, MAX_YEAR] {
        for month in [1u32, 2, 3, 12] {
            for day in [1u32, 28, 29, 31] {
                if let Some(d) = ReleaseDate::new(year, month, day) {
                    assert_eq!(ReleaseDate::from_timestamp(d.as_timestamp()), Some(d));
                    assert_eq!(ReleaseDate::from_timestamp(d.as_timestamp() + 86399), Some(d));
                }
            }
        }
    }
}

#[test]
fn from_timestamp_ends_with_the_calendar() {
    let first = date(MIN_YEAR, 1, 1).as_timestamp();
    let last = date(MAX_YEAR, 12, 31).as_timestamp();
    assert_eq!(ReleaseDate::from_timestamp(first), Some(date(MIN_YEAR, 1, 1)));
    assert_eq!(ReleaseDate::from_timestamp(first - 1), None);
    assert_eq!(ReleaseDate::from_timestamp(last + 86399), Some(date(MAX_YEAR, 12, 31)));
    assert_eq!(ReleaseDate::from_timestamp(last + 86400), None);
    assert_eq!(ReleaseDate::from_timestamp(i64::MAX), None);
    assert_eq!(ReleaseDate::from_timestamp(i64::MIN), None);
}
