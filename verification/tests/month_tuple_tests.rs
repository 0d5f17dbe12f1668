use date_time::date_tuple::DateTuple;
use date_time::month_tuple::{Month, MonthError, MonthTuple};
use date_time::text::{FormatError, ParseError};

#[test]
fn test_next_month() {
    let tuple1 = MonthTuple::new(2000, 5).unwrap();
    let tuple2 = MonthTuple::new(2000, 12).unwrap();
    let tuple3 = MonthTuple::new(9999, 12).unwrap();
    assert_eq!(MonthTuple::new(2000, 6).unwrap(), tuple1.next_month());
    assert_eq!(MonthTuple::new(2001, 1).unwrap(), tuple2.next_month());
    assert_eq!(tuple3, tuple3.next_month());
}

#[test]
fn test_previous_month() {
    let tuple1 = MonthTuple::new(2000, 5).unwrap();
    let tuple2 = MonthTuple::new(2000, 1).unwrap();
    let tuple3 = MonthTuple::new(0, 1).unwrap();
    assert_eq!(MonthTuple::new(2000, 4).unwrap(), tuple1.previous_month());
    assert_eq!(MonthTuple::new(1999, 12).unwrap(), tuple2.previous_month());
    assert_eq!(tuple3, tuple3.previous_month());
}

#[test]
fn test_from_date() {
    let date = DateTuple::new(2000, 5, 10).unwrap();
    assert_eq!(MonthTuple::new(2000, 5).unwrap(), MonthTuple::from(date));
}

#[test]
fn test_component_too_large() {
    assert!(MonthTuple::new(2000, 12).is_ok());
    assert!(MonthTuple::new(2000, 13).is_err());
    assert!(MonthTuple::new(10000, 5).is_err());
}

#[test]
fn test_this_month_does_not_panic() {
    MonthTuple::this_month();
}

#[test]
fn month_tuple_tests_test_to_readable_string() {
    let tuple = MonthTuple::new(2000, 5).unwrap();
    assert_eq!(String::from("May 2000"), tuple.to_readable_string());
}

#[test]
fn month_tuple_tests_test_to_string() {
    let tuple = MonthTuple::new(2000, 5).unwrap();
    assert_eq!(String::from("2000-05"), tuple.to_string());
}

#[test]
fn month_tuple_tests_test_equals() {
    let tuple1 = MonthTuple::new(2000, 5).unwrap();
    let tuple2 = MonthTuple::new(2000, 5).unwrap();
    assert_eq!(tuple1, tuple2);
}

#[test]
fn month_tuple_tests_test_comparisons() {
    let tuple1 = MonthTuple::new(2000, 5).unwrap();
    let tuple2 = MonthTuple::new(2000, 5).unwrap();
    let tuple3 = MonthTuple::new(2000, 6).unwrap();
    let tuple4 = MonthTuple::new(2001, 1).unwrap();
    assert!(tuple1 <= tuple2);
    assert!(!(tuple1 < tuple2));
    assert!(tuple1 >= tuple2);
    assert!(tuple1 < tuple3);
    assert!(tuple3 < tuple4);
    assert!(tuple4 > tuple2);
}

#[test]
fn month_tuple_tests_test_from_string() {
    let tuple = MonthTuple::new(2000, 5).unwrap();
    assert_eq!(tuple, str::parse("2000-05").unwrap());
    assert_eq!(tuple, str::parse("200005").unwrap());
    assert!(str::parse::<MonthTuple>("2000-15").is_err());
    assert!(str::parse::<MonthTuple>("200015").is_err());
    assert!(str::parse::<MonthTuple>("200O05").is_err());
}

#[test]
fn month_tuple_tests_test_add_months() {
    let mut tuple1 = MonthTuple::new(2000, 6).unwrap();
    let tuple1_orig = MonthTuple::new(2000, 6).unwrap();
    let mut tuple2 = MonthTuple::new(2000, 12).unwrap();
    let tuple2_orig = MonthTuple::new(2000, 12).unwrap();
    tuple1.add_months(1);
    assert_eq!(tuple1, tuple1_orig.next_month());
    tuple2.add_months(2);
    assert_eq!(tuple2, tuple2_orig.next_month().next_month());
}

#[test]
fn month_tuple_tests_test_subtract_months() {
    let mut tuple1 = MonthTuple::new(2000, 6).unwrap();
    let tuple1_orig = MonthTuple::new(2000, 6).unwrap();
    let mut tuple2 = MonthTuple::new(2000, 12).unwrap();
    let tuple2_orig = MonthTuple::new(2000, 12).unwrap();
    tuple1.subtract_months(1);
    assert_eq!(tuple1, tuple1_orig.previous_month());
    tuple2.subtract_months(2);
    assert_eq!(tuple2, tuple2_orig.previous_month().previous_month());
}

#[test]
fn test_add_years() {
    let mut tuple1 = MonthTuple::new(2000, 6).unwrap();
    let mut tuple2 = MonthTuple::new(9998, 6).unwrap();
    tuple1.add_years(2);
    assert_eq!(2002, tuple1.get_year());
    tuple2.add_years(2);
    assert_eq!(9999, tuple2.get_year());
}

#[test]
fn test_subtract_years() {
    let mut tuple1 = MonthTuple::new(2000, 6).unwrap();
    let mut tuple2 = MonthTuple::new(1, 6).unwrap();
    tuple1.subtract_years(2);
    assert_eq!(1998, tuple1.get_year());
    tuple2.subtract_years(2);
    assert_eq!(0, tuple2.get_year());
}

#[test]
fn test_month_errors_name_the_fault() {
    assert_eq!(Err(MonthError::Month { year: 2000, month: 13 }), MonthTuple::new(2000, 13));
    assert_eq!(Err(MonthError::Month { year: 2000, month: 0 }), MonthTuple::new(2000, 0));
    assert_eq!(Err(MonthError::Year { year: 10000, month: 5 }), MonthTuple::new(10000, 5));
    assert_eq!(Err(MonthError::Month { year: 10000, month: 13 }), MonthTuple::new(10000, 13));
}

#[test]
fn test_month_steps_far() {
    let mut month = Month::new(1999, 11).unwrap();
    month.add_months(14);
    assert_eq!(Month::new(2001, 1).unwrap(), month);
    month.subtract_months(25);
    assert_eq!(Month::new(1998, 12).unwrap(), month);
    month.add_months(0);
    assert_eq!(Month::new(1998, 12).unwrap(), month);
    month.add_months(u32::MAX);
    assert_eq!(Month::new(9999, 12).unwrap(), month);
    month.subtract_months(u32::MAX);
    assert_eq!(Month::new(0, 1).unwrap(), month);
    let mut stepped = Month::new(2010, 7).unwrap();
    let mut jumped = stepped;
    for _ in 0..30 {
        stepped = stepped.next_month();
    }
    jumped.add_months(30);
    assert_eq!(stepped, jumped);
    assert_eq!(7, Month::new(2010, 7).unwrap().get_month());
    let mut years = Month::new(2010, 7).unwrap();
    years.add_years(u16::MAX);
    assert_eq!(Month::new(9999, 7).unwrap(), years);
    years.subtract_years(u16::MAX);
    assert_eq!(Month::new(0, 7).unwrap(), years);
}

#[test]
fn test_month_string_round_trip() {
    let names = [
        "Jan", "Feb", "Mar", "Apr", "May", "Jun", "Jul", "Aug", "Sep", "Oct", "Nov", "Dec",
    ];
    for m in 1u8..=12 {
        let month = Month::new(45, m).unwrap();
        assert_eq!(month, str::parse::<Month>(&month.to_string()).unwrap());
        assert_eq!(format!("{} 0045", names[m as usize - 1]), month.to_readable_string());
    }
    assert_eq!("0045-03", Month::new(45, 3).unwrap().to_string());
    assert_eq!("9999-12", Month::new(9999, 12).unwrap().to_string());
}

#[test]
fn test_month_parse_errors() {
    assert_eq!(
        Err(ParseError::Invalid(MonthError::Month { year: 2000, month: 15 })),
        str::parse::<MonthTuple>("2000-15")
    );
    assert_eq!(
        Err(ParseError::Invalid(MonthError::Month { year: 2000, month: 0 })),
        str::parse::<MonthTuple>("200000")
    );
    assert_eq!(
        Err(ParseError::Format(FormatError {
            text: String::from("200O05"),
            example: "2018-11",
        })),
        str::parse::<MonthTuple>("200O05")
    );
    assert_eq!(
        Err(ParseError::Format(FormatError {
            text: String::from("2000-5"),
            example: "2018-11",
        })),
        str::parse::<MonthTuple>("2000-5")
    );
    assert_eq!(
        Err(ParseError::Format(FormatError {
            text: String::from("2000-05-01"),
            example: "2018-11",
        })),
        str::parse::<MonthTuple>("2000-05-01")
    );
}

#[test]
fn test_month_error_messages() {
    assert_eq!(
        "Invalid month in MonthTuple { y: 2000, m: 13 }: month must be between 1 and 12.",
        MonthTuple::new(2000, 13).unwrap_err().to_string()
    );
    assert_eq!(
        "Invalid year in MonthTuple { y: 10000, m: 5 }: year must be <= 9999.",
        MonthTuple::new(10000, 5).unwrap_err().to_string()
    );
    assert_eq!(
        "Invalid month passed to from_str: Invalid month in MonthTuple { y: 2000, m: 15 }: month must be between 1 and 12.",
        str::parse::<MonthTuple>("2000-15").unwrap_err().to_string()
    );
    assert_eq!(
        "Invalid str formatting: 200O05\nExpects a string formatted like 2018-11",
        str::parse::<MonthTuple>("200O05").unwrap_err().to_string()
    );
}
