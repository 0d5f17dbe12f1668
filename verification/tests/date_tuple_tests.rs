use date_time::date_tuple::{Date, DateError, DateTuple};
use date_time::text::{FormatError, ParseError};

#[test]
fn test_next_date() {
    let tuple1 = Date::new(2000, 6, 10).unwrap();
    let tuple2 = Date::new(2000, 3, 31).unwrap();
    let tuple3 = Date::max_value();
    assert_eq!(Date::new(2000, 6, 11).unwrap(), tuple1.next_date());
    assert_eq!(Date::new(2000, 4, 1).unwrap(), tuple2.next_date());
    assert_eq!(Date::new(9999, 12, 31).unwrap(), tuple3.next_date());
}

#[test]
fn test_previous_date() {
    let tuple1 = Date::new(2000, 6, 10).unwrap();
    let tuple2 = Date::new(2000, 3, 1).unwrap();
    let tuple3 = Date::new(0, 1, 1).unwrap();
    let tuple4 = Date::new(2000, 1, 1).unwrap();
    assert_eq!(Date::new(2000, 6, 9).unwrap(), tuple1.previous_date());
    assert_eq!(Date::new(2000, 2, 29).unwrap(), tuple2.previous_date());
    assert_eq!(Date::new(0, 1, 1).unwrap(), tuple3.previous_date());
    assert_eq!(Date::new(1999, 12, 31).unwrap(), tuple4.previous_date());
}

#[test]
fn test_year_too_large() {
    assert!(DateTuple::new(10000, 6, 10).is_err());
}

#[test]
fn date_tuple_tests_test_to_string() {
    let tuple = DateTuple::new(2000, 6, 10).unwrap();
    assert_eq!(String::from("2000-06-10"), tuple.to_string());
}

#[test]
fn date_tuple_tests_test_to_readable_string() {
    let tuple = DateTuple::new(2000, 6, 10).unwrap();
    assert_eq!(String::from("10 Jun 2000"), tuple.to_readable_string());
}

#[test]
fn date_tuple_tests_test_equals() {
    let tuple1 = DateTuple::new(2000, 6, 10).unwrap();
    let tuple2 = DateTuple::new(2000, 6, 10).unwrap();
    assert_eq!(tuple1, tuple2);
}

#[test]
fn date_tuple_tests_test_comparisons() {
    let tuple1 = DateTuple::new(2000, 6, 5).unwrap();
    let tuple2 = DateTuple::new(2000, 6, 5).unwrap();
    let tuple3 = DateTuple::new(2000, 7, 4).unwrap();
    let tuple4 = DateTuple::new(2001, 1, 1).unwrap();
    assert!(tuple1 <= tuple2);
    assert!(!(tuple1 < tuple2));
    assert!(tuple1 >= tuple2);
    assert!(tuple1 < tuple3);
    assert!(tuple3 < tuple4);
    assert!(tuple4 > tuple2);
}

#[test]
fn test_validity() {
    assert!(DateTuple::new(2000, 6, 5).is_ok());
    assert!(DateTuple::new(2000, 7, 31).is_ok());
    assert!(DateTuple::new(2000, 2, 2).is_ok());
    assert!(DateTuple::new(2000, 2, 29).is_ok());

    assert!(DateTuple::new(2000, 6, 31).is_err());
    assert!(DateTuple::new(2001, 2, 29).is_err());
    assert!(DateTuple::new(2000, 13, 5).is_err());
}

#[test]
fn date_tuple_tests_test_from_string() {
    let tuple = DateTuple::new(2000, 6, 10).unwrap();
    assert_eq!(tuple, str::parse("2000-06-10").unwrap());
    assert!(str::parse::<DateTuple>("2000-16-10").is_err());
    assert!(str::parse::<DateTuple>("2O00061O").is_err());
}

#[test]
fn test_from_legacy_string() {
    let tuple = DateTuple::new(2000, 6, 10).unwrap();
    assert_eq!(tuple, str::parse("20000610").unwrap());
    assert!(str::parse::<DateTuple>("20001610").is_err());
}

#[test]
fn test_add_days() {
    let mut tuple1 = DateTuple::new(2000, 6, 5).unwrap();
    let tuple1_orig = DateTuple::new(2000, 6, 5).unwrap();
    let mut tuple2 = DateTuple::new(2000, 12, 31).unwrap();
    let tuple2_orig = DateTuple::new(2000, 12, 31).unwrap();
    tuple1.add_days(1);
    assert_eq!(tuple1, tuple1_orig.next_date());
    tuple2.add_days(2);
    assert_eq!(tuple2, tuple2_orig.next_date().next_date());
}

#[test]
fn test_subtract_days() {
    let mut tuple1 = DateTuple::new(2000, 6, 5).unwrap();
    let tuple1_orig = DateTuple::new(2000, 6, 5).unwrap();
    let mut tuple2 = DateTuple::new(2000, 12, 31).unwrap();
    let tuple2_orig = DateTuple::new(2000, 12, 31).unwrap();
    tuple1.subtract_days(1);
    assert_eq!(tuple1, tuple1_orig.previous_date());
    tuple2.subtract_days(2);
    assert_eq!(tuple2, tuple2_orig.previous_date().previous_date());
}

#[test]
fn date_tuple_tests_test_add_months() {
    let mut tuple1 = DateTuple::new(2000, 6, 1).unwrap();
    let mut tuple2 = DateTuple::new(2000, 7, 31).unwrap();
    tuple1.add_months(1);
    assert_eq!(tuple1, DateTuple::new(2000, 7, 1).unwrap());
    tuple1.add_months(1);
    assert_eq!(tuple1, DateTuple::new(2000, 8, 1).unwrap());
    tuple2.add_months(2);
    assert_eq!(tuple2, DateTuple::new(2000, 9, 30).unwrap());
}

#[test]
fn date_tuple_tests_test_subtract_months() {
    let mut tuple1 = DateTuple::new(2000, 6, 1).unwrap();
    let mut tuple2 = DateTuple::new(2000, 7, 31).unwrap();
    let mut tuple3 = DateTuple::new(2000, 11, 30).unwrap();
    tuple1.subtract_months(1);
    assert_eq!(tuple1, DateTuple::new(2000, 5, 1).unwrap());
    tuple2.subtract_months(3);
    assert_eq!(tuple2, DateTuple::new(2000, 4, 30).unwrap());
    tuple3.subtract_months(1);
    assert_eq!(tuple3, DateTuple::new(2000, 10, 30).unwrap());
}

#[test]
fn test_add_and_subtract_years() {
    let mut tuple1 = Date::new(2000, 2, 29).unwrap();
    let mut tuple2 = Date::new(2000, 2, 29).unwrap();
    tuple1.add_years(1);
    tuple2.add_years(4);
    assert_eq!(Date::new(2001, 2, 28).unwrap(), tuple1);
    assert_eq!(Date::new(2004, 2, 29).unwrap(), tuple2);
    tuple1.subtract_years(1);
    tuple2.subtract_years(4);
    assert_eq!(Date::new(2000, 2, 28).unwrap(), tuple1);
    assert_eq!(Date::new(2000, 2, 29).unwrap(), tuple2);
    tuple2.subtract_years(1);
    assert_eq!(Date::new(1999, 2, 28).unwrap(), tuple2);
    let mut tuple3 = Date::new(9999, 6, 10).unwrap();
    let mut tuple4 = Date::new(0, 6, 10).unwrap();
    tuple3.add_years(1);
    tuple4.subtract_years(1);
    assert_eq!(9999, tuple3.get_year());
    assert_eq!(0, tuple4.get_year());
}

#[test]
fn test_to_days() {
    let feb_29_2000 = DateTuple::new(2000, 2, 29).unwrap();
    assert_eq!(730545, feb_29_2000.to_days());
}

#[test]
fn test_from_days() {
    let feb_29_2000 = DateTuple::new(2000, 2, 29).unwrap();
    assert_eq!(feb_29_2000, DateTuple::from_days(730545).unwrap());
    assert!(DateTuple::from_days(0).is_err());
}

#[test]
fn test_date_getters() {
    let date = DateTuple::new(1987, 11, 23).unwrap();
    assert_eq!(1987, date.get_year());
    assert_eq!(11, date.get_month());
    assert_eq!(23, date.get_date());
}

#[test]
fn test_date_errors_name_the_fault() {
    assert_eq!(
        Err(DateError::Year { year: 10000, month: 13, day: 0 }),
        DateTuple::new(10000, 13, 0)
    );
    assert_eq!(
        Err(DateError::Month { year: 2000, month: 0, day: 5 }),
        DateTuple::new(2000, 0, 5)
    );
    assert_eq!(
        Err(DateError::Month { year: 2000, month: 13, day: 5 }),
        DateTuple::new(2000, 13, 5)
    );
    assert_eq!(
        Err(DateError::Day { year: 2000, month: 4, day: 0 }),
        DateTuple::new(2000, 4, 0)
    );
    assert_eq!(
        Err(DateError::Day { year: 2100, month: 2, day: 29 }),
        DateTuple::new(2100, 2, 29)
    );
    assert_eq!(Err(DateError::DayCount { days: 0 }), DateTuple::from_days(0));
    assert_eq!(
        Err(DateError::DayCount { days: 3652426 }),
        DateTuple::from_days(3652426)
    );
    assert_eq!(
        Err(DateError::DayCount { days: u32::MAX }),
        DateTuple::from_days(u32::MAX)
    );
}

#[test]
fn test_min_and_max_values() {
    assert_eq!(DateTuple::new(0, 1, 1).unwrap(), DateTuple::min_value());
    assert_eq!(DateTuple::new(9999, 12, 31).unwrap(), DateTuple::max_value());
    assert_eq!(1, DateTuple::min_value().to_days());
    assert_eq!(3652425, DateTuple::max_value().to_days());
    assert_eq!(DateTuple::min_value(), DateTuple::from_days(1).unwrap());
    assert_eq!(DateTuple::max_value(), DateTuple::from_days(3652425).unwrap());
}

#[test]
fn test_boundary_saturation() {
    assert_eq!(DateTuple::max_value(), DateTuple::max_value().next_date());
    assert_eq!(DateTuple::min_value(), DateTuple::min_value().previous_date());
    let mut late = DateTuple::new(9999, 12, 30).unwrap();
    late.add_days(5);
    assert_eq!(DateTuple::max_value(), late);
    late.add_days(u32::MAX);
    assert_eq!(DateTuple::max_value(), late);
    let mut early = DateTuple::new(0, 1, 3).unwrap();
    early.subtract_days(7);
    assert_eq!(DateTuple::min_value(), early);
    early.subtract_days(u32::MAX);
    assert_eq!(DateTuple::min_value(), early);
    let mut month_late = DateTuple::new(9999, 11, 30).unwrap();
    month_late.add_months(3);
    assert_eq!(DateTuple::new(9999, 12, 30).unwrap(), month_late);
    let mut month_early = DateTuple::new(0, 3, 31).unwrap();
    month_early.subtract_months(40);
    assert_eq!(DateTuple::new(0, 1, 31).unwrap(), month_early);
}

#[test]
fn test_add_days_across_years() {
    let mut date = DateTuple::new(1999, 12, 31).unwrap();
    date.add_days(366);
    assert_eq!(DateTuple::new(2000, 12, 31).unwrap(), date);
    date.add_days(1);
    assert_eq!(DateTuple::new(2001, 1, 1).unwrap(), date);
    date.subtract_days(367);
    assert_eq!(DateTuple::new(1999, 12, 31).unwrap(), date);
    date.add_days(0);
    assert_eq!(DateTuple::new(1999, 12, 31).unwrap(), date);
    let mut stepped = DateTuple::new(2023, 2, 27).unwrap();
    let mut jumped = stepped;
    for _ in 0..400 {
        stepped = stepped.next_date();
    }
    jumped.add_days(400);
    assert_eq!(stepped, jumped);
    for _ in 0..800 {
        stepped = stepped.previous_date();
    }
    jumped.subtract_days(800);
    assert_eq!(stepped, jumped);
}

#[test]
fn test_month_length_clamping() {
    let mut date = Date::new(2000, 1, 31).unwrap();
    date.add_months(1);
    assert_eq!(Date::new(2000, 2, 29).unwrap(), date);
    let mut common = Date::new(2001, 1, 31).unwrap();
    common.add_months(1);
    assert_eq!(Date::new(2001, 2, 28).unwrap(), common);
    let mut leap_day = Date::new(2000, 2, 29).unwrap();
    leap_day.add_years(1);
    assert_eq!(Date::new(2001, 2, 28).unwrap(), leap_day);
    let mut back = Date::new(2000, 3, 31).unwrap();
    back.subtract_months(1);
    assert_eq!(Date::new(2000, 2, 29).unwrap(), back);
    let mut year_end = Date::new(2000, 12, 31).unwrap();
    year_end.add_months(2);
    assert_eq!(Date::new(2001, 2, 28).unwrap(), year_end);
}

#[test]
fn test_days_round_trip() {
    for days in [1u32, 59, 60, 61, 365, 366, 367, 730545, 719529, 3652424, 3652425] {
        let date = DateTuple::from_days(days).unwrap();
        assert_eq!(days, date.to_days());
        assert_eq!(date, DateTuple::from_days(date.to_days()).unwrap());
    }
    assert_eq!(DateTuple::new(0, 2, 29).unwrap(), DateTuple::from_days(60).unwrap());
    assert_eq!(DateTuple::new(0, 12, 31).unwrap(), DateTuple::from_days(366).unwrap());
    assert_eq!(DateTuple::new(1, 1, 1).unwrap(), DateTuple::from_days(367).unwrap());
    assert_eq!(DateTuple::new(1970, 1, 1).unwrap(), DateTuple::from_days(719529).unwrap());
}

#[test]
fn test_date_string_round_trip() {
    for (y, m, d) in [(0u16, 1u8, 1u8), (9999, 12, 31), (2000, 2, 29), (1, 10, 9), (987, 6, 30)] {
        let date = DateTuple::new(y, m, d).unwrap();
        assert_eq!(date, str::parse::<DateTuple>(&date.to_string()).unwrap());
    }
    assert_eq!("0000-01-01", DateTuple::min_value().to_string());
    assert_eq!("9999-12-31", DateTuple::max_value().to_string());
    assert_eq!("0987-06-30", DateTuple::new(987, 6, 30).unwrap().to_string());
    assert_eq!("1 Jan 0000", DateTuple::min_value().to_readable_string());
    assert_eq!("31 Dec 9999", DateTuple::max_value().to_readable_string());
}

#[test]
fn test_date_parse_errors() {
    assert_eq!(
        Err(ParseError::Invalid(DateError::Month { year: 2000, month: 15, day: 10 })),
        str::parse::<DateTuple>("2000-15-10")
    );
    assert_eq!(
        Err(ParseError::Invalid(DateError::Day { year: 2001, month: 2, day: 29 })),
        str::parse::<DateTuple>("20010229")
    );
    assert_eq!(
        Err(ParseError::Format(FormatError {
            text: String::from("2000-6-10"),
            example: "2018-11-02",
        })),
        str::parse::<DateTuple>("2000-6-10")
    );
    assert_eq!(
        Err(ParseError::Format(FormatError {
            text: String::from(""),
            example: "2018-11-02",
        })),
        str::parse::<DateTuple>("")
    );
    assert_eq!(
        Err(ParseError::Format(FormatError {
            text: String::from("2000/06/10"),
            example: "2018-11-02",
        })),
        str::parse::<DateTuple>("2000/06/10")
    );
    assert_eq!(
        Err(ParseError::Format(FormatError {
            text: String::from("2000-06-10 "),
            example: "2018-11-02",
        })),
        str::parse::<DateTuple>("2000-06-10 ")
    );
    assert_eq!(
        Err(ParseError::Format(FormatError {
            text: String::from("٢٠٠٠-٠٦-١٠"),
            example: "2018-11-02",
        })),
        str::parse::<DateTuple>("٢٠٠٠-٠٦-١٠")
    );
    assert_eq!(
        Err(ParseError::Format(FormatError {
            text: String::from("+200-06-10"),
            example: "2018-11-02",
        })),
        str::parse::<DateTuple>("+200-06-10")
    );
}

#[test]
fn test_date_formats() {
    let date = Date::new(2000, 5, 10).unwrap();
    assert_eq!("2000-05-10", date.to_string());
    assert_eq!("10 May 2000", date.to_readable_string());
    assert_eq!("2 Oct 2018", Date::new(2018, 10, 2).unwrap().to_readable_string());
    assert_eq!("13 Jan 2019", Date::new(2019, 1, 13).unwrap().to_readable_string());
}

#[test]
fn test_date_order_follows_day_count() {
    let dates = [
        Date::new(0, 1, 1).unwrap(),
        Date::new(0, 12, 31).unwrap(),
        Date::new(1, 1, 1).unwrap(),
        Date::new(1999, 12, 31).unwrap(),
        Date::new(2000, 1, 1).unwrap(),
        Date::new(2000, 2, 29).unwrap(),
        Date::new(2000, 3, 1).unwrap(),
        Date::new(9999, 12, 31).unwrap(),
    ];
    for earlier in 0..dates.len() {
        for later in 0..dates.len() {
            assert_eq!(
                dates[earlier] < dates[later],
                dates[earlier].to_days() < dates[later].to_days()
            );
            assert_eq!(earlier < later, dates[earlier] < dates[later]);
            assert_eq!(earlier.cmp(&later), dates[earlier].cmp(&dates[later]));
        }
    }
}

#[test]
fn test_date_error_messages() {
    assert_eq!(
        "Invalid year in DateTuple { y: 10000, m: 6, d: 10 }: year must be <= 9999.",
        DateTuple::new(10000, 6, 10).unwrap_err().to_string()
    );
    assert_eq!(
        "Invalid month in DateTuple { y: 2000, m: 13, d: 5 }: month must be between 1 and 12.",
        DateTuple::new(2000, 13, 5).unwrap_err().to_string()
    );
    assert_eq!(
        "Invalid date in DateTuple { y: 2001, m: 2, d: 29 }: the month has no such day.",
        DateTuple::new(2001, 2, 29).unwrap_err().to_string()
    );
    assert_eq!(
        "Invalid day count 0: must be between 1 and 3652425.",
        DateTuple::from_days(0).unwrap_err().to_string()
    );
    assert_eq!(
        "Invalid day count 4294967295: must be between 1 and 3652425.",
        DateTuple::from_days(u32::MAX).unwrap_err().to_string()
    );
    assert_eq!(
        "Invalid date passed to from_str: Invalid month in DateTuple { y: 2000, m: 15, d: 10 }: month must be between 1 and 12.",
        str::parse::<DateTuple>("2000-15-10").unwrap_err().to_string()
    );
    assert_eq!(
        "Invalid str formatting: 2O00061O\nExpects a string formatted like 2018-11-02",
        str::parse::<DateTuple>("2O00061O").unwrap_err().to_string()
    );
}
