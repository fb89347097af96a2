use koi::time::prelude::TimeLike;
use koi::time::time_of_day::is_valid_time;
use koi::time::Time;

#[test]
fn test_from_hm() {
    Time::from_hm(12, 30).unwrap();
    Time::from_hm(15, 30).unwrap();
    Time::from_hm(0, 30).unwrap();
    Time::from_hm(0, 0).unwrap();
    Time::from_hm(23, 59).unwrap();
}

#[test]
#[should_panic]
fn test_from_hm_fail() {
    Time::from_hm(24, 0).unwrap();
    Time::from_hm(12, 60).unwrap();
    Time::from_hm(12, 100).unwrap();
    Time::from_hm(0, 444).unwrap();
}

#[test]
fn test_parse() {
    let time = |hour, minute| Time::from_hm(hour, minute).unwrap();
    assert_eq!(time(12, 30), "12:30".parse().unwrap());
    assert_eq!(time(12, 30), "12:30".parse().unwrap());
    assert_eq!(time(12, 30), "  12:30  ".parse().unwrap());
    assert_eq!(time(12, 30), "12:30  ".parse().unwrap());
    assert_eq!(time(12, 30), "  12:30".parse().unwrap());
}

#[test]
fn test_parse_fail() {
    assert!(":30".parse::<Time>().is_err());
    assert!("12:".parse::<Time>().is_err());
    assert!("12".parse::<Time>().is_err());
    assert!("".parse::<Time>().is_err());
}

#[test]
fn test_display_parse_display() {
    let t = Time::from_hm(12, 30).unwrap();
    let ts = t.to_string();
    let tp = ts.parse().unwrap();
    assert_eq!(t, tp);
}

#[test]
fn time_validity_edges() {
    assert!(Time::from_hm(23, 59).is_some());
    assert!(Time::from_hm(24, 0).is_none());
    assert!(Time::from_hm(12, 60).is_none());
    assert!(is_valid_time(0, 0));
    assert!(!is_valid_time(u32::MAX, 0));
}

#[test]
fn time_text_exact() {
    assert_eq!(Time::from_hm(9, 5).unwrap().to_string(), "09:05");
    assert_eq!(Time::from_hm(23, 59).unwrap().to_string(), "23:59");
    let t = Time::from_hm(7, 45).unwrap();
    assert_eq!(t.hour(), 7);
    assert_eq!(t.minute(), 45);
}

#[test]
fn time_parse_details() {
    assert_eq!(Time::parse(" 1 : 2 "), Ok(Time::from_hm(1, 2).unwrap()));
    assert_eq!(Time::parse("+9:05"), Ok(Time::from_hm(9, 5).unwrap()));
    assert!(Time::parse("24:00").is_err());
    assert!(Time::parse("12:60").is_err());
    assert!(Time::parse("-1:00").is_err());
    assert!(Time::parse("12:30:00").is_err());
}

#[test]
fn time_ordering() {
    let a = Time::from_hm(9, 59).unwrap();
    let b = Time::from_hm(10, 0).unwrap();
    let c = Time::from_hm(10, 1).unwrap();
    assert!(a < b && b < c);
    assert!(c > a);
}
