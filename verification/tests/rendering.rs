use calr::dates::{days_in_month, first_weekday, last_day_in_month, leap_year, CalendarDate};
use calr::month::format_month;
use calr::parse::resolve_config;
use calr::year::{format_year, render, Config};

fn no_day() -> CalendarDate {
    CalendarDate { year: 0, month: 1, day: 1 }
}

#[test]
fn test_format_month() {
    let today = no_day();
    let leap_february = vec![
        "   February 2020      ",
        "Su Mo Tu We Th Fr Sa  ",
        "                   1  ",
        " 2  3  4  5  6  7  8  ",
        " 9 10 11 12 13 14 15  ",
        "16 17 18 19 20 21 22  ",
        "23 24 25 26 27 28 29  ",
        "                      ",
    ];
    assert_eq!(format_month(2020, 2, true, today), leap_february);

    let may = vec![
        "        May           ",
        "Su Mo Tu We Th Fr Sa  ",
        "                1  2  ",
        " 3  4  5  6  7  8  9  ",
        "10 11 12 13 14 15 16  ",
        "17 18 19 20 21 22 23  ",
        "24 25 26 27 28 29 30  ",
        "31                    ",
    ];
    assert_eq!(format_month(2020, 5, false, today), may);

    let april_hl = vec![
        "     April 2021       ",
        "Su Mo Tu We Th Fr Sa  ",
        "             1  2  3  ",
        " 4  5  6 \u{1b}[7m 7\u{1b}[0m  8  9 10  ",
        "11 12 13 14 15 16 17  ",
        "18 19 20 21 22 23 24  ",
        "25 26 27 28 29 30     ",
        "                      ",
    ];
    let today = CalendarDate { year: 2021, month: 4, day: 7 };
    assert_eq!(format_month(2021, 4, true, today), april_hl);
}

#[test]
fn test_last_day_in_month() {
    assert_eq!(
        last_day_in_month(2020, 1),
        CalendarDate { year: 2020, month: 1, day: 31 }
    );
    assert_eq!(
        last_day_in_month(2020, 2),
        CalendarDate { year: 2020, month: 2, day: 29 }
    );
    // year 2100 is not a leap year so should return 28 days in Feb
    assert_eq!(
        last_day_in_month(2100, 2),
        CalendarDate { year: 2100, month: 2, day: 28 }
    );
    assert_eq!(
        last_day_in_month(2020, 4),
        CalendarDate { year: 2020, month: 4, day: 30 }
    );
}

#[test]
fn february_follows_the_leap_rule() {
    assert!(leap_year(2000));
    assert!(!leap_year(1900));
    assert!(leap_year(2024));
    assert!(!leap_year(2023));
    assert_eq!(days_in_month(2000, 2), 29);
    assert_eq!(days_in_month(1900, 2), 28);
    assert_eq!(days_in_month(2024, 2), 29);
    assert_eq!(days_in_month(2023, 2), 28);
    assert_eq!(days_in_month(1, 2), 28);
    assert_eq!(days_in_month(400, 2), 29);
}

#[test]
fn first_weekdays_are_correct() {
    // 2020-05-01 was a Friday, 2020-02-01 a Saturday, 2024-01-01 a Monday,
    // 2024-12-01 a Sunday, 0001-01-01 a Monday.
    assert_eq!(first_weekday(2020, 5), 5);
    assert_eq!(first_weekday(2020, 2), 6);
    assert_eq!(first_weekday(2024, 1), 1);
    assert_eq!(first_weekday(2024, 12), 0);
    assert_eq!(first_weekday(1, 1), 1);
}

#[test]
fn month_blocks_share_a_fixed_shape() {
    let today = no_day();
    for year in [1, 1900, 2020, 2024, 9999] {
        for month in 1..=12u32 {
            let block = format_month(year, month, true, today);
            assert_eq!(block.len(), 8);
            for line in &block {
                assert_eq!(line.chars().count(), 22);
            }
        }
    }
}

#[test]
fn render_defaults_to_the_current_month() {
    let today = CalendarDate { year: 2024, month: 3, day: 15 };
    let config = resolve_config(None, None, false, today).unwrap();
    let expected_lines = vec![
        "       March          ",
        "Su Mo Tu We Th Fr Sa  ",
        "                1  2  ",
        " 3  4  5  6  7  8  9  ",
        "10 11 12 13 14 \u{1b}[7m15\u{1b}[0m 16  ",
        "17 18 19 20 21 22 23  ",
        "24 25 26 27 28 29 30  ",
        "31                    ",
    ];
    let expected: String = expected_lines.iter().map(|l| format!("{}\n", l)).collect();
    assert_eq!(render(&config), expected);
}

#[test]
fn render_names_the_year_of_another_month() {
    // Asking for a month of a year other than today's puts the year in the
    // header.
    let today = CalendarDate { year: 2024, month: 3, day: 15 };
    let config = resolve_config(Some("5"), Some("2020"), false, today).unwrap();
    let rendered = render(&config);
    let first_line = rendered.lines().next().unwrap();
    assert_eq!(first_line, "      May 2020        ");
}

#[test]
fn render_composes_the_whole_year() {
    let today = CalendarDate { year: 2024, month: 3, day: 15 };
    let config = resolve_config(None, None, true, today).unwrap();
    assert_eq!(config.month, None);
    let rendered = render(&config);
    assert_eq!(rendered, format_year(2024, today));

    let lines: Vec<&str> = rendered.lines().collect();
    // One label line, four rows of eight lines, three separators.
    assert_eq!(lines.len(), 36);
    assert!(rendered.ends_with('\n'));

    // The year label is right-aligned in width 32.
    assert_eq!(lines[0], "                            2024");

    // The first row head joins the three headers, names only.
    assert_eq!(
        lines[1],
        "      January               February               March          "
    );

    // Blank separator lines stand between the rows and nowhere else.
    assert_eq!(lines[9], "");
    assert_eq!(lines[18], "");
    assert_eq!(lines[27], "");
    for (i, line) in lines.iter().enumerate() {
        if i > 0 && !matches!(i, 9 | 18 | 27) {
            assert!(!line.is_empty());
        }
    }

    // Today is highlighted inside March's row and nowhere else.
    assert_eq!(
        lines[5],
        "14 15 16 17 18 19 20  11 12 13 14 15 16 17  10 11 12 13 14 \u{1b}[7m15\u{1b}[0m 16  "
    );
    assert_eq!(rendered.matches('\u{1b}').count(), 2);

    // The final row ends with the blank sixth week of the last three months.
    assert_eq!(lines[35], " ".repeat(66));
}

#[test]
fn year_rows_zip_without_mismatch() {
    let today = CalendarDate { year: 2024, month: 3, day: 15 };
    let rendered = format_year(2024, today);
    let lines: Vec<&str> = rendered.lines().collect();
    for g in 0..4u32 {
        let a = format_month(2024, 3 * g + 1, false, today);
        let b = format_month(2024, 3 * g + 2, false, today);
        let c = format_month(2024, 3 * g + 3, false, today);
        for i in 0..8usize {
            let row = format!("{}{}{}", a[i], b[i], c[i]);
            assert_eq!(lines[1 + (g as usize) * 9 + i], row);
        }
    }
}

#[test]
fn render_single_month_matches_its_block() {
    let today = CalendarDate { year: 2021, month: 4, day: 7 };
    let config = Config { month: Some(4), year: 2021, today };
    let rendered = render(&config);
    let block = format_month(2021, 4, false, today);
    let expected: String = block.iter().map(|l| format!("{}\n", l)).collect();
    assert_eq!(rendered, expected);
}
