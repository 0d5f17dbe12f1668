use date_time::date_time_tuple::{DateTime, DateTimeTuple};
use date_time::date_tuple::{DateError, DateTuple};
use date_time::text::{FormatError, ParseError};
use date_time::time_tuple::Duration;
use date_time::time_tuple::TimeTuple;

#[test]
fn date_time_tuple_tests_test_to_string() {
    let tuple = DateTimeTuple::new(
        DateTuple::new(2000, 5, 10).unwrap(),
        TimeTuple::new(8, 30, 0),
    );
    assert_eq!(String::from("2000-05-10@08:30:00"), tuple.to_string());
}

#[test]
fn date_time_tuple_tests_test_to_readable_string() {
    let tuple = DateTimeTuple::new(
        DateTuple::new(2000, 5, 10).unwrap(),
        TimeTuple::new(8, 30, 0),
    );
    assert_eq!(
        String::from("10 May 2000 08:30:00"),
        tuple.to_readable_string()
    );
}

#[test]
fn date_time_tuple_tests_test_equals() {
    let tuple1 = DateTimeTuple::new(
        DateTuple::new(2000, 5, 10).unwrap(),
        TimeTuple::new(8, 30, 0),
    );
    let tuple2 = DateTimeTuple::new(
        DateTuple::new(2000, 5, 10).unwrap(),
        TimeTuple::new(8, 30, 0),
    );
    assert_eq!(tuple1, tuple2);
}

#[test]
fn date_time_tuple_tests_test_comparisons() {
    let tuple1 = DateTimeTuple::new(
        DateTuple::new(2000, 5, 10).unwrap(),
        TimeTuple::new(8, 30, 0),
    );
    let tuple2 = DateTimeTuple::new(
        DateTuple::new(2000, 5, 10).unwrap(),
        TimeTuple::new(9, 30, 0),
    );
    let tuple3 = DateTimeTuple::new(
        DateTuple::new(2000, 5, 11).unwrap(),
        TimeTuple::new(8, 30, 0),
    );
    assert!(tuple1 < tuple2);
    assert!(tuple2 < tuple3);
}

#[test]
fn date_time_tuple_tests_test_from_string() {
    let tuple = DateTimeTuple::new(
        DateTuple::new(2000, 5, 10).unwrap(),
        TimeTuple::new(8, 30, 0),
    );
    assert_eq!(tuple, str::parse("2000-05-10@08:30:00").unwrap());
    assert_eq!(tuple, str::parse("20000510@08:30:00").unwrap());
    assert!(str::parse::<DateTimeTuple>("2000-15-10@08:30:00").is_err());
    assert!(str::parse::<DateTimeTuple>("2-a11111@05:a:04").is_err());
}

#[test]
fn test_between_equal() {
    assert_eq!(
        Duration::new(0, 0, 0),
        Duration::between(
            DateTimeTuple::new(DateTuple::new(1, 2, 3).unwrap(), TimeTuple::new(4, 5, 6)),
            DateTimeTuple::new(DateTuple::new(1, 2, 3).unwrap(), TimeTuple::new(4, 5, 6))
        )
    );
}

#[test]
fn test_between_max_cant_overflow() {
    // Must not panic
    Duration::between(
        DateTimeTuple::new(DateTuple::new(0, 1, 1).unwrap(), TimeTuple::new(0, 0, 0)),
        DateTimeTuple::new(
            DateTuple::new(9999, 12, 31).unwrap(),
            TimeTuple::new(23, 59, 59),
        ),
    )
    .to_seconds();
}

#[test]
fn test_no_days_between() {
    assert_eq!(
        Duration::new(1, 0, 0),
        Duration::between(
            DateTimeTuple::new(DateTuple::new(0, 1, 1).unwrap(), TimeTuple::new(0, 0, 0)),
            DateTimeTuple::new(DateTuple::new(0, 1, 1).unwrap(), TimeTuple::new(1, 0, 0),),
        )
    );
}

#[test]
fn test_days_between() {
    assert_eq!(
        Duration::new(25, 0, 0),
        Duration::between(
            DateTimeTuple::new(DateTuple::new(0, 1, 1).unwrap(), TimeTuple::new(0, 0, 0)),
            DateTimeTuple::new(DateTuple::new(0, 1, 2).unwrap(), TimeTuple::new(1, 0, 0),),
        )
    );
}

#[test]
fn test_date_time_getters() {
    let date = DateTuple::new(2000, 5, 10).unwrap();
    let time = TimeTuple::new(8, 30, 0);
    let both = DateTime::new(date, time);
    assert_eq!(date, both.get_date());
    assert_eq!(time, both.get_time());
}

#[test]
fn test_between_whole_range() {
    let first = DateTimeTuple::new(DateTuple::min_value(), TimeTuple::new(0, 0, 0));
    let last = DateTimeTuple::new(DateTuple::max_value(), TimeTuple::new(23, 59, 59));
    let longest = Duration::between(first, last);
    assert_eq!(315569519999, longest.to_seconds());
    assert_eq!(Duration::new(87658199, 59, 59), longest);
    assert_eq!(longest, Duration::between(last, first));
}

#[test]
fn test_between_either_order() {
    let evening = DateTimeTuple::new(DateTuple::new(2000, 2, 28).unwrap(), TimeTuple::new(23, 30, 0));
    let morning = DateTimeTuple::new(DateTuple::new(2000, 3, 1).unwrap(), TimeTuple::new(1, 0, 0));
    assert_eq!(Duration::new(25, 30, 0), Duration::between(evening, morning));
    assert_eq!(Duration::new(25, 30, 0), Duration::between(morning, evening));
    let next = DateTimeTuple::new(DateTuple::new(2000, 2, 29).unwrap(), TimeTuple::new(1, 0, 0));
    assert_eq!(Duration::new(1, 30, 0), Duration::between(evening, next));
    let same_day = DateTimeTuple::new(DateTuple::new(2000, 2, 28).unwrap(), TimeTuple::new(22, 45, 10));
    assert_eq!(Duration::new(0, 44, 50), Duration::between(evening, same_day));
}

#[test]
fn test_date_time_order_is_by_date_first() {
    let late_on_first = DateTime::new(DateTuple::new(2000, 5, 10).unwrap(), TimeTuple::new(23, 0, 0));
    let early_on_second = DateTime::new(DateTuple::new(2000, 5, 11).unwrap(), TimeTuple::new(1, 0, 0));
    assert!(late_on_first < early_on_second);
    assert!(early_on_second > late_on_first);
    assert!(late_on_first <= late_on_first);
    assert!(!(late_on_first < late_on_first));
}

#[test]
fn test_date_time_parse_errors() {
    assert_eq!(
        Err(ParseError::Invalid(DateError::Month { year: 2000, month: 15, day: 10 })),
        str::parse::<DateTimeTuple>("2000-15-10@08:30:00")
    );
    assert_eq!(
        Err(ParseError::Invalid(DateError::Day { year: 2001, month: 2, day: 29 })),
        str::parse::<DateTimeTuple>("20010229@08:30:00")
    );
    assert_eq!(
        Err(ParseError::Format(FormatError {
            text: String::from("2-a11111@05:a:04"),
            example: "2018-11-02@08:30:00",
        })),
        str::parse::<DateTimeTuple>("2-a11111@05:a:04")
    );
    assert_eq!(
        Err(ParseError::Format(FormatError {
            text: String::from("2000-15-10@08:3x:00"),
            example: "2018-11-02@08:30:00",
        })),
        str::parse::<DateTimeTuple>("2000-15-10@08:3x:00")
    );
    assert_eq!(
        Err(ParseError::Format(FormatError {
            text: String::from("2000-05-10 08:30:00"),
            example: "2018-11-02@08:30:00",
        })),
        str::parse::<DateTimeTuple>("2000-05-10 08:30:00")
    );
    assert_eq!(
        Err(ParseError::Format(FormatError {
            text: String::from("2000-05-10@08:30"),
            example: "2018-11-02@08:30:00",
        })),
        str::parse::<DateTimeTuple>("2000-05-10@08:30")
    );
    assert_eq!(
        Err(ParseError::Format(FormatError {
            text: String::from("2000-05-10@08:30:00é"),
            example: "2018-11-02@08:30:00",
        })),
        str::parse::<DateTimeTuple>("2000-05-10@08:30:00é")
    );
}

#[test]
fn test_date_time_string_round_trip() {
    let both = DateTime::new(DateTuple::new(1999, 12, 31).unwrap(), TimeTuple::new(23, 59, 59));
    assert_eq!("1999-12-31@23:59:59", both.to_string());
    assert_eq!("31 Dec 1999 23:59:59", both.to_readable_string());
    assert_eq!(both, str::parse::<DateTime>(&both.to_string()).unwrap());
    let wrapped = DateTime::new(DateTuple::new(2000, 5, 10).unwrap(), TimeTuple::new(1, 0, 0));
    assert_eq!(wrapped, str::parse::<DateTime>("2000-05-10@25:00:00").unwrap());
}

#[test]
fn test_date_time_error_messages() {
    assert_eq!(
        "Invalid date passed to from_str: Invalid month in DateTuple { y: 2000, m: 15, d: 10 }: month must be between 1 and 12.",
        str::parse::<DateTimeTuple>("2000-15-10@08:30:00").unwrap_err().to_string()
    );
    assert_eq!(
        "Invalid str formatting: 2-a11111@05:a:04\nExpects a string formatted like 2018-11-02@08:30:00",
        str::parse::<DateTimeTuple>("2-a11111@05:a:04").unwrap_err().to_string()
    );
}
