use task_store::datetime::error::DatetimeError;
use task_store::datetime::{Date, Datetime, Time};
use task_store::text::decimal::IntParseError;

#[test]
fn leap_year_boundaries() {
    assert_eq!(Date::new(2000, 2, 29), Ok(Date { year: 2000, month: 2, day: 29 }));
    assert_eq!(Date::new(1900, 2, 29), Err(DatetimeError::RangeError));
    assert_eq!(Date::new(2023, 2, 29), Err(DatetimeError::RangeError));
    assert_eq!(Date::new(2024, 2, 29), Ok(Date { year: 2024, month: 2, day: 29 }));
    assert_eq!(Date::new(2023, 2, 28), Ok(Date { year: 2023, month: 2, day: 28 }));
    assert_eq!(Date::new(2024, 2, 30), Err(DatetimeError::RangeError));
}

#[test]
fn month_boundaries() {
    assert_eq!(Date::new(2023, 4, 31), Err(DatetimeError::RangeError));
    assert_eq!(Date::new(2023, 4, 30), Ok(Date { year: 2023, month: 4, day: 30 }));
    assert_eq!(Date::new(2023, 0, 1), Err(DatetimeError::RangeError));
    assert_eq!(Date::new(2023, 13, 1), Err(DatetimeError::RangeError));
    assert_eq!(Date::new(2023, 1, 0), Err(DatetimeError::RangeError));
    assert_eq!(Date::new(2023, 12, 31), Ok(Date { year: 2023, month: 12, day: 31 }));
    assert_eq!(Date::new(0, 1, 1), Ok(Date { year: 0, month: 1, day: 1 }));
}

#[test]
fn every_month_has_its_length() {
    let lengths: [u8; 12] = [31, 28, 31, 30, 31, 30, 31, 31, 30, 31, 30, 31];
    for (k, &len) in lengths.iter().enumerate() {
        let month = (k + 1) as u8;
        let probe = Date { year: 2023, month, day: 1 };
        assert_eq!(probe.get_possible_day_max(), len);
        assert!(Date::new(2023, month, len).is_ok());
        assert_eq!(Date::new(2023, month, len + 1), Err(DatetimeError::RangeError));
    }
    assert_eq!(Date { year: 2024, month: 2, day: 1 }.get_possible_day_max(), 29);
    assert_eq!(Date { year: 2023, month: 0, day: 1 }.get_possible_day_max(), 0);
    assert_eq!(Date { year: 2023, month: 13, day: 1 }.get_possible_day_max(), 0);
}

#[test]
fn leap_year_rule() {
    assert!(Date { year: 2000, month: 1, day: 1 }.check_leap_year());
    assert!(!Date { year: 1900, month: 1, day: 1 }.check_leap_year());
    assert!(Date { year: 2024, month: 1, day: 1 }.check_leap_year());
    assert!(!Date { year: 2023, month: 1, day: 1 }.check_leap_year());
    assert!(!Date { year: 2100, month: 1, day: 1 }.check_leap_year());
    assert!(Date { year: 0, month: 1, day: 1 }.check_leap_year());
}

#[test]
fn check_range_agrees_with_new() {
    assert!(Date { year: 2024, month: 2, day: 29 }.check_range());
    assert!(!Date { year: 2023, month: 2, day: 29 }.check_range());
    assert!(!Date { year: 2023, month: 13, day: 0 }.check_range());
    assert!(Time { hour: 0, minute: 0 }.check_range());
    assert!(!Time { hour: 24, minute: 0 }.check_range());
}

#[test]
fn time_boundaries() {
    assert_eq!(Time::new(23, 59), Ok(Time { hour: 23, minute: 59 }));
    assert_eq!(Time::new(24, 0), Err(DatetimeError::RangeError));
    assert_eq!(Time::new(10, 60), Err(DatetimeError::RangeError));
    assert_eq!(Time::new(0, 0), Ok(Time { hour: 0, minute: 0 }));
}

#[test]
fn date_parses_with_and_without_padding() {
    let expected = Ok(Date { year: 2023, month: 1, day: 2 });
    assert_eq!(Date::parse("2023-01-02"), expected);
    assert_eq!(Date::parse("2023-1-2"), expected);
    assert_eq!(Date::parse("+2023-+1-002"), expected);
    assert_eq!(Date::parse("5-1-2"), Ok(Date { year: 5, month: 1, day: 2 }));
}

#[test]
fn date_ignores_fields_after_the_third() {
    assert_eq!(Date::parse("2023-01-02-junk-5"), Ok(Date { year: 2023, month: 1, day: 2 }));
    assert_eq!(Date::parse("2023-01-02-"), Ok(Date { year: 2023, month: 1, day: 2 }));
}

#[test]
fn date_with_too_few_fields() {
    assert_eq!(Date::parse(""), Err(DatetimeError::TooFewArgumentsError));
    assert_eq!(Date::parse("2023"), Err(DatetimeError::TooFewArgumentsError));
    assert_eq!(Date::parse("2023-01"), Err(DatetimeError::TooFewArgumentsError));
    assert_eq!(Date::parse("x-y"), Err(DatetimeError::TooFewArgumentsError));
}

#[test]
fn date_with_bad_numbers() {
    assert_eq!(
        Date::parse("2023--02"),
        Err(DatetimeError::ParseError(IntParseError::Empty))
    );
    assert_eq!(
        Date::parse("-2023-01-02"),
        Err(DatetimeError::ParseError(IntParseError::Empty))
    );
    assert_eq!(
        Date::parse("20x3-01-02"),
        Err(DatetimeError::ParseError(IntParseError::InvalidDigit))
    );
    assert_eq!(
        Date::parse("2023-01-0２"),
        Err(DatetimeError::ParseError(IntParseError::InvalidDigit))
    );
    assert_eq!(
        Date::parse("2023- 1-02"),
        Err(DatetimeError::ParseError(IntParseError::InvalidDigit))
    );
    assert_eq!(
        Date::parse("65536-01-02"),
        Err(DatetimeError::ParseError(IntParseError::PosOverflow))
    );
    assert_eq!(
        Date::parse("2023-256-02"),
        Err(DatetimeError::ParseError(IntParseError::PosOverflow))
    );
    assert_eq!(Date::parse("65535-12-31"), Ok(Date { year: 65535, month: 12, day: 31 }));
}

#[test]
fn date_reports_the_first_bad_field() {
    assert_eq!(
        Date::parse("x-256-"),
        Err(DatetimeError::ParseError(IntParseError::InvalidDigit))
    );
    assert_eq!(
        Date::parse("2023-256-"),
        Err(DatetimeError::ParseError(IntParseError::PosOverflow))
    );
    assert_eq!(
        Date::parse("2023-13-"),
        Err(DatetimeError::ParseError(IntParseError::Empty))
    );
}

#[test]
fn date_out_of_range_after_parsing() {
    assert_eq!(Date::parse("2023-02-29"), Err(DatetimeError::RangeError));
    assert_eq!(Date::parse("2023-13-01"), Err(DatetimeError::RangeError));
    assert_eq!(Date::parse("2023-00-10"), Err(DatetimeError::RangeError));
    assert_eq!(Date::parse("2023-04-31"), Err(DatetimeError::RangeError));
    assert_eq!(Date::parse("2024-02-29"), Ok(Date { year: 2024, month: 2, day: 29 }));
}

#[test]
fn date_format_pads_month_and_day_only() {
    assert_eq!(Date { year: 2023, month: 1, day: 2 }.format(), "2023-01-02");
    assert_eq!(Date { year: 2023, month: 10, day: 22 }.format(), "2023-10-22");
    assert_eq!(Date { year: 5, month: 12, day: 9 }.format(), "5-12-09");
    assert_eq!(Date { year: 0, month: 1, day: 1 }.format(), "0-01-01");
    assert_eq!(Date { year: 65535, month: 255, day: 100 }.format(), "65535-255-100");
}

#[test]
fn date_format_matches_the_standard_formatter() {
    for &(year, month, day) in &[(0u16, 0u8, 0u8), (7, 7, 7), (10, 10, 10), (999, 99, 9), (1000, 100, 200), (40000, 12, 31)] {
        let date = Date { year, month, day };
        assert_eq!(date.format(), format!("{}-{:0>2}-{:0>2}", year, month, day));
    }
}

#[test]
fn time_parses() {
    assert_eq!(Time::parse("10:30"), Ok(Time { hour: 10, minute: 30 }));
    assert_eq!(Time::parse("1:5"), Ok(Time { hour: 1, minute: 5 }));
    assert_eq!(Time::parse("01:05:59"), Ok(Time { hour: 1, minute: 5 }));
    assert_eq!(Time::parse("00:00"), Ok(Time { hour: 0, minute: 0 }));
}

#[test]
fn time_errors() {
    assert_eq!(Time::parse("1030"), Err(DatetimeError::TooFewArgumentsError));
    assert_eq!(Time::parse(""), Err(DatetimeError::TooFewArgumentsError));
    assert_eq!(Time::parse("24:00"), Err(DatetimeError::RangeError));
    assert_eq!(Time::parse("10:60"), Err(DatetimeError::RangeError));
    assert_eq!(Time::parse(":30"), Err(DatetimeError::ParseError(IntParseError::Empty)));
    assert_eq!(Time::parse("10:"), Err(DatetimeError::ParseError(IntParseError::Empty)));
    assert_eq!(Time::parse("1o:30"), Err(DatetimeError::ParseError(IntParseError::InvalidDigit)));
    assert_eq!(Time::parse("10:300"), Err(DatetimeError::ParseError(IntParseError::PosOverflow)));
    assert_eq!(Time::parse("-1:30"), Err(DatetimeError::ParseError(IntParseError::InvalidDigit)));
}

#[test]
fn time_format_pads_both_fields() {
    assert_eq!(Time { hour: 1, minute: 5 }.format(), "01:05");
    assert_eq!(Time { hour: 23, minute: 59 }.format(), "23:59");
    assert_eq!(Time { hour: 0, minute: 0 }.format(), "00:00");
    assert_eq!(Time { hour: 200, minute: 7 }.format(), "200:07");
}

#[test]
fn datetime_parses() {
    let expected = Datetime {
        date: Date { year: 2023, month: 1, day: 1 },
        time: Time { hour: 10, minute: 30 },
    };
    assert_eq!(Datetime::parse("2023-01-01.10:30"), Ok(expected));
    assert_eq!(Datetime::parse("2023-1-1.10:30.more"), Ok(expected));
}

#[test]
fn datetime_errors() {
    assert_eq!(Datetime::parse("2023-01-01"), Err(DatetimeError::TooFewArgumentsError));
    assert_eq!(Datetime::parse(""), Err(DatetimeError::TooFewArgumentsError));
    assert_eq!(Datetime::parse("2023-01.10:30"), Err(DatetimeError::TooFewArgumentsError));
    assert_eq!(Datetime::parse("2023-01-01.1030"), Err(DatetimeError::TooFewArgumentsError));
    assert_eq!(Datetime::parse("2023-02-30.10:30"), Err(DatetimeError::RangeError));
    assert_eq!(Datetime::parse("2023-02-03.25:30"), Err(DatetimeError::RangeError));
    assert_eq!(
        Datetime::parse("2023-xx-03.10:30"),
        Err(DatetimeError::ParseError(IntParseError::InvalidDigit))
    );
}

#[test]
fn datetime_reports_the_date_before_the_time() {
    assert_eq!(
        Datetime::parse("2023-02-30.ab:cd"),
        Err(DatetimeError::RangeError)
    );
    assert_eq!(
        Datetime::parse("2023-02.99:99"),
        Err(DatetimeError::TooFewArgumentsError)
    );
}

#[test]
fn datetime_format_joins_with_a_dot() {
    let value = Datetime {
        date: Date { year: 2023, month: 10, day: 22 },
        time: Time { hour: 23, minute: 10 },
    };
    assert_eq!(value.format(), "2023-10-22.23:10");
}

#[test]
fn datetime_round_trip_on_chosen_values() {
    for &(y, m, d, h, mi) in &[
        (2023u16, 1u8, 1u8, 0u8, 0u8),
        (2024, 2, 29, 23, 59),
        (0, 12, 31, 9, 9),
        (7, 7, 7, 7, 7),
        (65535, 11, 30, 12, 0),
    ] {
        let value = Datetime {
            date: Date::new(y, m, d).unwrap(),
            time: Time::new(h, mi).unwrap(),
        };
        assert_eq!(Datetime::parse(&value.format()), Ok(value));
        assert_eq!(Date::parse(&value.date.format()), Ok(value.date));
        assert_eq!(Time::parse(&value.time.format()), Ok(value.time));
    }
}

#[test]
fn every_existing_day_of_some_years_round_trips() {
    for &year in &[1900u16, 2000, 2023, 2024] {
        for month in 1u8..=12 {
            let max = Date { year, month, day: 1 }.get_possible_day_max();
            for day in 1..=max {
                let date = Date::new(year, month, day).unwrap();
                assert_eq!(Date::parse(&date.format()), Ok(date));
            }
        }
    }
}

#[test]
fn date_from_numbers() {
    assert_eq!(Date::try_from((2023, 10, 22)), Ok(Date { year: 2023, month: 10, day: 22 }));
    assert_eq!(Date::try_from((2023, 2, 29)), Err(DatetimeError::RangeError));
    assert_eq!(Date::try_from((2023, 0, 1)), Err(DatetimeError::RangeError));
}

#[test]
fn date_from_numbers_that_do_not_fit_their_field() {
    assert_eq!(Date::try_from((2023, 257, 1)), Err(DatetimeError::RangeError));
    assert_eq!(Date::try_from((67559, 1, 1)), Err(DatetimeError::RangeError));
    assert_eq!(Date::try_from((65536, 1, 1)), Err(DatetimeError::RangeError));
    assert_eq!(Date::try_from((2023, 1, 257)), Err(DatetimeError::RangeError));
    assert_eq!(Date::try_from((2023, 256 + 10, 512 + 22)), Err(DatetimeError::RangeError));
    assert_eq!(Date::try_from((-1, 1, 1)), Err(DatetimeError::RangeError));
    assert_eq!(Date::try_from((2023, -1, 1)), Err(DatetimeError::RangeError));
    assert_eq!(Date::try_from((2023, 1, -1)), Err(DatetimeError::RangeError));
    assert_eq!(Date::try_from((i32::MIN, 1, 1)), Err(DatetimeError::RangeError));
    assert_eq!(Date::try_from((i32::MAX, 1, 1)), Err(DatetimeError::RangeError));
    assert_eq!(Date::try_from((65535, 12, 31)), Ok(Date { year: 65535, month: 12, day: 31 }));
    assert_eq!(Date::try_from((0, 1, 1)), Ok(Date { year: 0, month: 1, day: 1 }));
}

#[test]
fn time_from_numbers() {
    assert_eq!(Time::try_from((23, 10)), Ok(Time { hour: 23, minute: 10 }));
    assert_eq!(Time::try_from((0, 0)), Ok(Time { hour: 0, minute: 0 }));
    assert_eq!(Time::try_from((24, 0)), Err(DatetimeError::RangeError));
    assert_eq!(Time::try_from((10, 60)), Err(DatetimeError::RangeError));
}

#[test]
fn time_from_numbers_that_do_not_fit_their_field() {
    assert_eq!(Time::try_from((256, 0)), Err(DatetimeError::RangeError));
    assert_eq!(Time::try_from((0, 256)), Err(DatetimeError::RangeError));
    assert_eq!(Time::try_from((256 + 5, 256 + 6)), Err(DatetimeError::RangeError));
    assert_eq!(Time::try_from((-1, 0)), Err(DatetimeError::RangeError));
    assert_eq!(Time::try_from((0, -1)), Err(DatetimeError::RangeError));
}

#[test]
fn datetime_from_numbers() {
    let made: Result<Datetime, DatetimeError> = ((2023, 10, 22), (23, 10)).try_into();
    assert_eq!(
        made,
        Ok(Datetime {
            date: Date { year: 2023, month: 10, day: 22 },
            time: Time { hour: 23, minute: 10 },
        })
    );
    assert_eq!(Datetime::try_from(((2023, 2, 30), (23, 10))), Err(DatetimeError::RangeError));
    assert_eq!(Datetime::try_from(((2023, 2, 3), (23, 60))), Err(DatetimeError::RangeError));
    assert_eq!(Datetime::try_from(((2023, 257, 1), (256, 0))), Err(DatetimeError::RangeError));
    assert_eq!(Datetime::try_from(((2023, 1, 1), (256, 0))), Err(DatetimeError::RangeError));
    assert_eq!(Datetime::try_from(((65536, 1, 1), (0, 0))), Err(DatetimeError::RangeError));
}

#[test]
fn datetime_conversion_from_text_is_parsing() {
    for text in ["2023-01-02", "2023-1-2-9", "2023-02-29", "2023-01", "x-1-1", "", "70000-1-1"] {
        assert_eq!(Date::try_from(text), Date::parse(text));
    }
    for text in ["10:30", "1:5:9", "24:00", "1030", ":", "a:b", "300:1"] {
        assert_eq!(Time::try_from(text), Time::parse(text));
    }
    for text in ["2023-01-01.10:30", "2023-01-01", "2023-02-30.10:30", "2023-01-01.25:00", ""] {
        assert_eq!(Datetime::try_from(text), Datetime::parse(text));
    }
    let date: Result<Date, DatetimeError> = "2024-02-29".try_into();
    assert_eq!(date, Ok(Date { year: 2024, month: 2, day: 29 }));
    let time: Result<Time, DatetimeError> = "23:59".try_into();
    assert_eq!(time, Ok(Time { hour: 23, minute: 59 }));
    let both: Result<Datetime, DatetimeError> = "2024-02-29.23:59".try_into();
    assert_eq!(
        both,
        Ok(Datetime {
            date: Date { year: 2024, month: 2, day: 29 },
            time: Time { hour: 23, minute: 59 },
        })
    );
}

#[test]
fn datetime_error_messages() {
    assert_eq!(
        DatetimeError::RangeError.message(),
        "This Datetime has values that are out of range."
    );
    assert_eq!(DatetimeError::TooFewArgumentsError.message(), "Too few arguments.");
    assert_eq!(
        DatetimeError::ParseError(IntParseError::Empty).message(),
        "Error occurred during parse integer: cannot parse integer from empty string"
    );
    assert_eq!(
        DatetimeError::ParseError(IntParseError::InvalidDigit).message(),
        "Error occurred during parse integer: invalid digit found in string"
    );
    assert_eq!(
        DatetimeError::ParseError(IntParseError::PosOverflow).message(),
        "Error occurred during parse integer: number too large to fit in target type"
    );
}

#[test]
fn parse_error_messages_are_those_of_the_standard_library() {
    let empty = "".parse::<u8>().unwrap_err();
    let digit = "x".parse::<u8>().unwrap_err();
    let large = "256".parse::<u8>().unwrap_err();
    assert_eq!(IntParseError::Empty.message(), empty.to_string());
    assert_eq!(IntParseError::InvalidDigit.message(), digit.to_string());
    assert_eq!(IntParseError::PosOverflow.message(), large.to_string());
}
