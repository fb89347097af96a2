use koi::time::prelude::DateLike;
use koi::time::util::{is_leap_year, is_valid_date, moment_of, month_len, year_len};
use koi::time::{Date, DateTime, Duration, Time};

fn date(y: u32, m: u32, d: u32) -> Date {
    Date::from_ymd(y, m, d).unwrap()
}

fn ymd(d: &Date) -> (u32, u32, u32) {
    (d.year(), d.month(), d.day())
}

#[test]
fn leap_years() {
    assert!(is_leap_year(2000));
    assert!(!is_leap_year(1900));
    assert!(is_leap_year(2024));
    assert!(!is_leap_year(2023));
    assert!(!is_leap_year(2100));
}

#[test]
fn month_and_year_lengths() {
    assert_eq!(month_len(2023, 1), 31);
    assert_eq!(month_len(2023, 2), 28);
    assert_eq!(month_len(2024, 2), 29);
    assert_eq!(month_len(2023, 4), 30);
    assert_eq!(month_len(2023, 12), 31);
    assert_eq!(year_len(2024), 366);
    assert_eq!(year_len(2023), 365);
}

#[test]
fn date_validity() {
    assert!(is_valid_date(2023, 1, 31));
    assert!(is_valid_date(2024, 2, 29));
    assert!(!is_valid_date(2023, 2, 29));
    assert!(!is_valid_date(2023, 0, 1));
    assert!(!is_valid_date(2023, 13, 1));
    assert!(!is_valid_date(2023, 1, 0));
    assert!(!is_valid_date(2023, 4, 31));
}

#[test]
fn from_ymd_accepts_and_rejects() {
    assert!(Date::from_ymd(2023, 12, 31).is_some());
    assert!(Date::from_ymd(0, 1, 1).is_some());
    assert!(Date::from_ymd(u32::MAX, 1, 1).is_some());
    assert!(Date::from_ymd(2023, 0, 1).is_none());
    assert!(Date::from_ymd(2023, 13, 1).is_none());
    assert!(Date::from_ymd(2023, 5, 0).is_none());
    assert!(Date::from_ymd(2023, 6, 31).is_none());
    assert!(Date::from_ymd(2023, 2, 29).is_none());
}

#[test]
fn resolve_rollover() {
    assert_eq!(Date::resolve_date(2023, 13, 1), date(2024, 1, 1));
    assert_eq!(Date::resolve_date(2023, 1, 0), date(2022, 12, 31));
    assert_eq!(Date::resolve_date(2024, 2, 30), date(2024, 3, 1));
    assert_eq!(Date::resolve_date(2023, 2, 30), date(2023, 3, 2));
    assert_eq!(Date::resolve_date(2023, 13, 40), date(2024, 2, 9));
    assert_eq!(Date::resolve_date(2023, 1, 400), date(2024, 2, 4));
    assert_eq!(Date::resolve_date(2023, -11, 1), date(2022, 1, 1));
    assert_eq!(Date::resolve_date(2023, 3, -1), date(2023, 2, 27));
}

#[test]
fn add_months_overflows_day() {
    assert_eq!(date(2023, 1, 31).add_months(1), date(2023, 3, 3));
    assert_eq!(date(2023, 3, 31).add_months(-1), date(2023, 3, 3));
    assert_eq!(date(2023, 11, 15).add_months(14), date(2025, 1, 15));
}

#[test]
fn navigation() {
    let d = date(2024, 2, 29);
    assert_eq!(d.next_day(), date(2024, 3, 1));
    assert_eq!(d.prev_day(), date(2024, 2, 28));
    assert_eq!(d.next_year(), date(2025, 3, 1));
    assert_eq!(d.prev_year(), date(2023, 3, 1));
    assert_eq!(date(2023, 12, 31).next_day(), date(2024, 1, 1));
    assert_eq!(date(2023, 1, 1).prev_day(), date(2022, 12, 31));
    assert_eq!(date(2023, 12, 5).next_month(), date(2024, 1, 5));
    assert_eq!(date(2023, 1, 5).prev_month(), date(2022, 12, 5));
    assert_eq!(d.add_days(366), date(2025, 3, 1));
    assert_eq!(d.add_years(4), date(2028, 2, 29));
    assert_eq!(d.month_begin(), date(2024, 2, 1));
    assert_eq!(d.month_end(), date(2024, 2, 29));
    assert_eq!(date(2023, 2, 10).month_end(), date(2023, 2, 28));
    assert_eq!(d.year_begin(), date(2024, 1, 1));
    assert_eq!(d.year_end(), date(2024, 12, 31));
}

#[test]
fn field_replacement() {
    let d = date(2024, 2, 29);
    assert_eq!(d.with_year(2028), Some(date(2028, 2, 29)));
    assert_eq!(d.with_year(2023), None);
    assert_eq!(date(2023, 1, 31).with_month(4), None);
    assert_eq!(date(2023, 1, 31).with_month(3), Some(date(2023, 3, 31)));
    assert_eq!(date(2023, 2, 1).with_day(30), None);
    assert_eq!(date(2023, 2, 1).with_day(28), Some(date(2023, 2, 28)));
}

#[test]
fn durations_applied() {
    let d = date(2023, 6, 10);
    assert_eq!(d.add_duration(Duration::Day(-3)), date(2023, 6, 7));
    assert_eq!(d.add_duration(Duration::Week(1)), date(2023, 6, 12));
    assert_eq!(d.add_duration(Duration::Month(7)), date(2024, 1, 10));
    assert_eq!(d.add_duration(Duration::Year(-1)), date(2022, 6, 10));
    assert_eq!(date(0, 1, 1).checked_add_duration(Duration::Day(-1)), None);
    assert_eq!(date(5, 1, 1).checked_add_duration(Duration::Year(-6)), None);
    assert_eq!(
        date(u32::MAX, 12, 31).checked_add_duration(Duration::Day(1)),
        None
    );
}

#[test]
fn date_text_round_trip() {
    let today = date(2023, 6, 10);
    for (y, m, d) in [(2023, 1, 1), (5, 3, 9), (2024, 2, 29), (12345, 12, 31), (0, 1, 1)] {
        let v = date(y, m, d);
        assert_eq!(Date::parse_with_today(&v.to_string(), today), Ok(v));
    }
    assert_eq!(date(5, 3, 9).to_string(), "0005-03-09");
    assert_eq!(date(2023, 12, 31).to_string(), "2023-12-31");
}

#[test]
fn date_relative_words() {
    let today = date(2023, 3, 1);
    assert_eq!(Date::parse_with_today("today", today), Ok(today));
    assert_eq!(Date::parse_with_today(" yesterday ", today), Ok(today.add_days(-1)));
    assert_eq!(Date::parse_with_today("yesterday", today), Ok(date(2023, 2, 28)));
    assert_eq!(Date::parse_with_today("tomorrow", today), Ok(today.add_days(1)));
    assert_eq!(Date::parse_with_today("-3d", today), Ok(date(2023, 2, 26)));
    assert_eq!(Date::parse_with_today("1m", today), Ok(date(2023, 4, 1)));
    assert_eq!(Date::parse_with_today("yesterday", date(0, 1, 1)), Err(()));
}

#[test]
fn date_parse_rejects() {
    let today = date(2023, 3, 1);
    assert_eq!(Date::parse_with_today("", today), Err(()));
    assert_eq!(Date::parse_with_today("2023-02-29", today), Err(()));
    assert_eq!(Date::parse_with_today("2023-02", today), Err(()));
    assert_eq!(Date::parse_with_today("2023-xx-01", today), Err(()));
    assert_eq!(Date::parse_with_today("someday", today), Err(()));
    assert_eq!(Date::parse_with_today(" 2023 - 2 - 3 ", today), Ok(date(2023, 2, 3)));
    assert_eq!(Date::parse_with_today("0-1-1-x", today), Err(()));
    assert_eq!(Date::parse_with_today("2023-01-05-", today), Err(()));
    assert_eq!(Date::parse_with_today("2023-13-01", today), Err(()));
}

#[test]
fn date_ordering() {
    let a = date(2023, 1, 1);
    let b = date(2023, 1, 2);
    let c = date(2023, 2, 1);
    let d = date(2024, 1, 1);
    assert!(a < b && b < c && c < d);
    assert!(d > a);
    assert!(a <= a);
}

#[test]
fn date_time_ordering() {
    let t9 = Time::from_hm(9, 0).unwrap();
    let t8 = Time::from_hm(8, 0).unwrap();
    let a = DateTime::new(date(2023, 1, 1), t9);
    let b = DateTime::new(date(2023, 1, 2), t8);
    let c = DateTime::new(date(2023, 1, 2), t9);
    assert!(a < b);
    assert!(b < c);
    assert!(a < c);
}

#[test]
fn date_time_text_and_parse() {
    let now = DateTime::new(date(2023, 6, 10), Time::from_hm(14, 5).unwrap());
    assert_eq!(now.to_string(), "2023-06-10 14:05");
    assert_eq!(DateTime::parse_with_now("now", now), Ok(now));
    assert_eq!(DateTime::parse_with_now(&now.to_string(), now), Ok(now));
    assert_eq!(
        DateTime::parse_with_now("2023-06-01", now),
        Ok(DateTime::new(date(2023, 6, 1), Time::from_hm(0, 0).unwrap()))
    );
    assert_eq!(
        DateTime::parse_with_now("  2023-06-01   09:30 ", now),
        Ok(DateTime::new(date(2023, 6, 1), Time::from_hm(9, 30).unwrap()))
    );
    assert_eq!(
        DateTime::parse_with_now("tomorrow 08:00", now),
        Ok(DateTime::new(date(2023, 6, 11), Time::from_hm(8, 0).unwrap()))
    );
    assert_eq!(
        DateTime::parse_with_now("-1w", now),
        Ok(DateTime::new(date(2023, 6, 8), Time::from_hm(0, 0).unwrap()))
    );
    assert_eq!(DateTime::parse_with_now("", now), Err(()));
    assert_eq!(DateTime::parse_with_now("2023-06-01 09:00 junk", now), Err(()));
    assert_eq!(DateTime::parse_with_now("2023-06-01 25:00", now), Err(()));
}

#[test]
fn date_time_navigation() {
    let t = Time::from_hm(9, 30).unwrap();
    let dt = DateTime::new(date(2023, 1, 31), t);
    assert_eq!(dt.add_months(1), DateTime::new(date(2023, 3, 3), t));
    assert_eq!(dt.next_day(), DateTime::new(date(2023, 2, 1), t));
    assert_eq!(dt.year(), 2023);
    assert_eq!(dt.month(), 2023);
    assert_eq!(dt.day(), 31);
    assert_eq!(dt.date(), date(2023, 1, 31));
    assert_eq!(dt.time(), t);
    assert_eq!(dt.with_day(32), None);
    assert_eq!(dt.with_day(30), Some(DateTime::new(date(2023, 1, 30), t)));
    assert_eq!(dt.month_end(), dt);
}

#[test]
fn clock_reads_a_valid_moment() {
    let now = koi::time::util::now().unwrap();
    let d = now.date();
    assert!(is_valid_date(d.year(), d.month(), d.day()));
    assert!(koi::time::util::today().is_some());
    assert!("now".parse::<DateTime>().is_ok());
    assert!("today".parse::<Date>().is_ok());
    let _ = ymd(&d);
}

#[test]
fn moment_from_clock_fields() {
    assert_eq!(
        moment_of(2023, 6, 10, 14, 5),
        Some(DateTime::new(date(2023, 6, 10), Time::from_hm(14, 5).unwrap()))
    );
    assert_eq!(moment_of(-1, 6, 10, 14, 5), None);
    assert_eq!(moment_of(2023, 2, 29, 14, 5), None);
    assert_eq!(moment_of(2023, 6, 10, 24, 0), None);
}
