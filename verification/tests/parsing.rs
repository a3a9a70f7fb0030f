use calr::parse::{parse_int, parse_month, parse_year, resolve_config, ParseError};
use calr::dates::CalendarDate;

fn mid_march() -> CalendarDate {
    CalendarDate { year: 2024, month: 3, day: 15 }
}

#[test]
fn test_parse_int() {
    // Parse positive int
    let res = parse_int("1");
    assert!(res.is_ok());
    assert_eq!(res.unwrap(), 1i64);

    // Parse negative int
    let res = parse_int("-1");
    assert!(res.is_ok());
    assert_eq!(res.unwrap(), -1i64);

    // Fail on a string
    let res = parse_int("foo");
    assert!(res.is_err());
    assert_eq!(res.unwrap_err().message(), "Invalid integer \"foo\"");
}

#[test]
fn test_parse_year() {
    let res = parse_year("1");
    assert!(res.is_ok());
    assert_eq!(res.unwrap(), 1i32);

    let res = parse_year("9999");
    assert!(res.is_ok());
    assert_eq!(res.unwrap(), 9999i32);

    let res = parse_year("0");
    assert!(res.is_err());
    assert_eq!(
        res.unwrap_err().message(),
        "year \"0\" not in the range 1 through 9999"
    );

    let res = parse_year("10000");
    assert!(res.is_err());
    assert_eq!(
        res.unwrap_err().message(),
        "year \"10000\" not in the range 1 through 9999"
    );

    let res = parse_year("foo");
    assert!(res.is_err());
    assert_eq!(res.unwrap_err().message(), "Invalid integer \"foo\"");
}

#[test]
fn test_parse_month() {
    let res = parse_month("1");
    assert!(res.is_ok());
    assert_eq!(res.unwrap(), 1u32);

    let res = parse_month("12");
    assert!(res.is_ok());
    assert_eq!(res.unwrap(), 12u32);

    let res = parse_month("jan");
    assert!(res.is_ok());
    assert_eq!(res.unwrap(), 1u32);

    let res = parse_month("0");
    assert!(res.is_err());
    assert_eq!(
        res.unwrap_err().message(),
        "month \"0\" not in the range 1 through 12"
    );

    let res = parse_month("13");
    assert!(res.is_err());
    assert_eq!(
        res.unwrap_err().message(),
        "month \"13\" not in the range 1 through 12"
    );

    let res = parse_month("foo");
    assert!(res.is_err());
    assert_eq!(res.unwrap_err().message(), "Invalid month \"foo\"");
}

#[test]
fn month_prefixes_resolve_by_unique_match() {
    assert_eq!(parse_month("jan").unwrap(), 1u32);
    assert_eq!(parse_month("January").unwrap(), 1u32);
    assert_eq!(parse_month("1").unwrap(), 1u32);

    // "ja" is a prefix of January alone, so it resolves.
    assert_eq!(parse_month("ja").unwrap(), 1u32);

    // "j" is a prefix of January, June and July, so it is ambiguous.
    let res = parse_month("j");
    assert!(res.is_err());
    assert_eq!(res.unwrap_err().message(), "Invalid month \"j\"");

    // Matching ignores case everywhere.
    assert_eq!(parse_month("SEPT").unwrap(), 9u32);
    assert_eq!(parse_month("juL").unwrap(), 7u32);
    assert_eq!(parse_month("s").unwrap(), 9u32);

    // The empty string is a prefix of every name, so it is ambiguous too.
    assert!(parse_month("").is_err());
}

#[test]
fn each_error_variant_has_an_input() {
    assert!(matches!(
        parse_year("foo").unwrap_err(),
        ParseError::InvalidInteger(_)
    ));
    assert!(matches!(
        parse_year("0").unwrap_err(),
        ParseError::YearOutOfRange(0)
    ));
    assert!(matches!(
        parse_month("13").unwrap_err(),
        ParseError::MonthOutOfRange(13)
    ));
    assert!(matches!(
        parse_month("foo").unwrap_err(),
        ParseError::InvalidMonthName(_)
    ));
    assert!(matches!(
        resolve_config(Some("3"), None, true, mid_march()).unwrap_err(),
        ParseError::ConflictingArguments
    ));
    assert!(matches!(
        resolve_config(None, Some("2024"), true, mid_march()).unwrap_err(),
        ParseError::ConflictingArguments
    ));
}

#[test]
fn huge_and_malformed_integers_are_invalid() {
    // Magnitudes past the parser's limit are not integers to it.
    assert!(matches!(
        parse_year("99999999999999999999").unwrap_err(),
        ParseError::InvalidInteger(_)
    ));
    // An integer above the year range is a range error, not an invalid one.
    assert!(matches!(
        parse_year("999999999").unwrap_err(),
        ParseError::YearOutOfRange(999999999)
    ));
    assert!(parse_int("").is_err());
    assert!(parse_int("-").is_err());
    assert!(parse_int("+").is_err());
    assert!(parse_int("1.5").is_err());
    assert!(parse_int(" 1").is_err());
    assert_eq!(parse_int("+7").unwrap(), 7i64);
    // A negative number is numeric, so the month range check rejects it.
    let res = parse_month("-1");
    assert!(matches!(res, Err(ParseError::MonthOutOfRange(-1))));
    assert_eq!(
        res.unwrap_err().message(),
        "month \"-1\" not in the range 1 through 12"
    );
    assert_eq!(parse_int("007").unwrap(), 7i64);
}

#[test]
fn resolver_defaults_follow_today() {
    let today = mid_march();

    // No arguments: today's month of today's year.
    let c = resolve_config(None, None, false, today).unwrap();
    assert_eq!(c.month, Some(3));
    assert_eq!(c.year, 2024);
    assert_eq!(c.today, today);

    // A month alone falls in today's year.
    let c = resolve_config(Some("7"), None, false, today).unwrap();
    assert_eq!(c.month, Some(7));
    assert_eq!(c.year, 2024);

    // A year alone renders that whole year.
    let c = resolve_config(None, Some("1999"), false, today).unwrap();
    assert_eq!(c.month, None);
    assert_eq!(c.year, 1999);

    // Month and year together.
    let c = resolve_config(Some("dec"), Some("1984"), false, today).unwrap();
    assert_eq!(c.month, Some(12));
    assert_eq!(c.year, 1984);

    // The whole-year flag alone renders today's year.
    let c = resolve_config(None, None, true, today).unwrap();
    assert_eq!(c.month, None);
    assert_eq!(c.year, 2024);

    // A bad month aborts resolution before the year is looked at.
    let e = resolve_config(Some("foo"), Some("bar"), false, today).unwrap_err();
    assert_eq!(e.message(), "Invalid month \"foo\"");
}
