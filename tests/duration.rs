use koi::time::Duration;

#[test]
fn test_parsing() {
    let parse = |s: &str| s.parse::<Duration>().unwrap();
    assert_eq!(parse("7d"), Duration::Day(7));
    assert_eq!(parse("+7d"), Duration::Day(7));
    assert_eq!(parse("-3d"), Duration::Day(-3));

    assert_eq!(parse("7w"), Duration::Week(7));
    assert_eq!(parse("+7w"), Duration::Week(7));
    assert_eq!(parse("-1w"), Duration::Week(-1));

    assert_eq!(parse("7m"), Duration::Month(7));
    assert_eq!(parse("+7m"), Duration::Month(7));
    assert_eq!(parse("-7m"), Duration::Month(-7));

    assert_eq!(parse("10y"), Duration::Year(10));
    assert_eq!(parse("+10y"), Duration::Year(10));
    assert_eq!(parse("-1y"), Duration::Year(-1));
}

#[test]
fn test_display_parse() {
    let expected = Duration::Day(1);
    let got = expected.to_string().parse().unwrap();
    assert_eq!(expected, got);

    let expected = Duration::Day(-10);
    let got = expected.to_string().parse().unwrap();
    assert_eq!(expected, got);

    let expected = Duration::Week(20);
    let got = expected.to_string().parse().unwrap();
    assert_eq!(expected, got);

    let expected = Duration::Week(-20);
    let got = expected.to_string().parse().unwrap();
    assert_eq!(expected, got);

    let expected = Duration::Month(20);
    let got = expected.to_string().parse().unwrap();
    assert_eq!(expected, got);

    let expected = Duration::Month(-20);
    let got = expected.to_string().parse().unwrap();
    assert_eq!(expected, got);

    let expected = Duration::Year(20);
    let got = expected.to_string().parse().unwrap();
    assert_eq!(expected, got);

    let expected = Duration::Year(-20);
    let got = expected.to_string().parse().unwrap();
    assert_eq!(expected, got);
}

#[test]
fn duration_round_trip_listed_values() {
    let values = [
        Duration::Day(7),
        Duration::Day(-3),
        Duration::Week(7),
        Duration::Month(-7),
        Duration::Year(10),
        Duration::Year(-1),
    ];
    for d in values {
        assert_eq!(Duration::parse(&d.to_string()), Ok(d));
    }
}

#[test]
fn duration_text_exact() {
    assert_eq!(Duration::Day(-3).to_string(), "-3d");
    assert_eq!(Duration::Week(7).to_string(), "7w");
    assert_eq!(Duration::Month(0).to_string(), "0m");
    assert_eq!(Duration::Year(i32::MIN).to_string(), "-2147483648y");
    assert_eq!(Duration::Day(i32::MAX).to_string(), "2147483647d");
}

#[test]
fn duration_parse_rejects() {
    assert!(Duration::parse("").is_err());
    assert!(Duration::parse("   ").is_err());
    assert!(Duration::parse("7x").is_err());
    assert!(Duration::parse("7").is_err());
    assert!(Duration::parse("d").is_err());
    assert!(Duration::parse("+d").is_err());
    assert!(Duration::parse("ad").is_err());
    assert!(Duration::parse("2147483648d").is_err());
    assert!(Duration::parse("7é").is_err());
}

#[test]
fn duration_parse_whitespace_and_bounds() {
    assert_eq!(Duration::parse("  7d  "), Ok(Duration::Day(7)));
    assert!(Duration::parse("7 d").is_err());
    assert!(Duration::parse("+ 7d").is_err());
    assert_eq!(Duration::parse("-2147483648y"), Ok(Duration::Year(i32::MIN)));
    assert_eq!(Duration::parse("007w"), Ok(Duration::Week(7)));
}
