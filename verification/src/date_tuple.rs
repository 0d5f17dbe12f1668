//! Calendar dates from 1 Jan 0000 to 31 Dec 9999.

use crate::date_utils::{
    day_number, days_before_month, days_before_year, days_in_month, days_in_year,
    get_last_date_in_month, is_leap_year, leap_year, lemma_days_before_month,
    lemma_days_before_year, lemma_days_before_year_increases, now_as_datetuple, MAX_DAYS,
    MAX_YEAR, UNIX_EPOCH_DAYS,
};
use crate::month_tuple::{MonthTuple, Ym};
use crate::text::{
    ascii_len, decimal, digits_at, format_error, four_digit_value, four_digits, is_char_at,
    lemma_four_digits_at, lemma_two_digits_at, push_decimal, push_four_digits, push_two_digits,
    read_four_digits, read_two_digits, two_digit_value, two_digits, ParseError,
};
use std::cmp::Ordering;
use std::str::FromStr;
use vstd::prelude::*;
use vstd::std_specs::cmp::PartialOrdSpecImpl;
use vstd::string::*;

verus! {

pub type Date = DateTuple;

/// A calendar day as three mathematical integers: what a `DateTuple` stands
/// for in contracts.
pub struct Ymd {
    pub year: int,
    pub month: int,
    pub day: int,
}

impl Ymd {
    /// The day exists in the calendar and its year is within 0 to 9999.
    pub open spec fn is_valid(self) -> bool {
        &&& 0 <= self.year <= 9999
        &&& 1 <= self.month <= 12
        &&& 1 <= self.day <= days_in_month(self.month, self.year)
    }

    /// The first day held: 1 Jan 0000.
    pub open spec fn min() -> Ymd {
        Ymd { year: 0, month: 1, day: 1 }
    }

    /// The last day held: 31 Dec 9999.
    pub open spec fn max() -> Ymd {
        Ymd { year: 9999, month: 12, day: 31 }
    }

    /// The day count, with 1 for 1 Jan 0000.
    pub open spec fn day_number(self) -> int {
        day_number(self.year, self.month, self.day)
    }

    /// The following day; the last day held is followed by itself.
    pub open spec fn next(self) -> Ymd {
        if self == Ymd::max() {
            self
        } else if self.day < days_in_month(self.month, self.year) {
            Ymd { day: self.day + 1, ..self }
        } else if self.month < 12 {
            Ymd { year: self.year, month: self.month + 1, day: 1 }
        } else {
            Ymd { year: self.year + 1, month: 1, day: 1 }
        }
    }

    /// The preceding day; the first day held is preceded by itself.
    pub open spec fn previous(self) -> Ymd {
        if self == Ymd::min() {
            self
        } else if self.day > 1 {
            Ymd { day: self.day - 1, ..self }
        } else if self.month > 1 {
            Ymd {
                year: self.year,
                month: self.month - 1,
                day: days_in_month(self.month - 1, self.year),
            }
        } else {
            Ymd { year: self.year - 1, month: 12, day: 31 }
        }
    }

    /// The day reached by `count` steps to the following day.
    pub open spec fn next_times(self, count: nat) -> Ymd
        decreases count,
    {
        if count == 0 {
            self
        } else {
            self.next_times((count - 1) as nat).next()
        }
    }

    /// The day reached by `count` steps to the preceding day.
    pub open spec fn previous_times(self, count: nat) -> Ymd
        decreases count,
    {
        if count == 0 {
            self
        } else {
            self.previous_times((count - 1) as nat).previous()
        }
    }

    /// The day with a given day count: the day reached from the first day
    /// held by one step less than the count.
    pub open spec fn of_day_number(count: int) -> Ymd {
        Ymd::min().next_times((count - 1) as nat)
    }

    /// The same day of the month in another month, or that month's last
    /// day where it is shorter.
    pub open spec fn in_month_of(self, month: Ym) -> Ymd {
        Ymd {
            year: month.year,
            month: month.month,
            day: if self.day > days_in_month(month.month, month.year) {
                days_in_month(month.month, month.year)
            } else {
                self.day
            },
        }
    }

    /// The same day in another year; 29 Feb becomes 28 Feb where that year
    /// has none.
    pub open spec fn in_year(self, year: int) -> Ymd {
        Ymd {
            year,
            month: self.month,
            day: if self.month == 2 && self.day == 29 && !leap_year(year) {
                28
            } else {
                self.day
            },
        }
    }

    /// The month that the day lies in.
    pub open spec fn month_of(self) -> Ym {
        Ym { year: self.year, month: self.month }
    }

    /// The date as it is stored: `YYYY-MM-DD`.
    pub open spec fn canonical_text(self) -> Seq<char> {
        four_digits(self.year) + seq!['-'] + two_digits(self.month) + seq!['-'] + two_digits(
            self.day,
        )
    }

    /// The date as it is shown to a reader: `D Mon YYYY`, the day without
    /// a leading zero.
    pub open spec fn readable_text(self) -> Seq<char> {
        decimal(self.day as nat) + seq![' '] + self.month_of().readable_text()
    }

    /// The text has the form `YYYY-MM-DD`.
    pub open spec fn is_canonical_text(text: Seq<char>) -> bool {
        &&& text.len() == 10
        &&& digits_at(text, 0, 4)
        &&& text[4] == '-'
        &&& digits_at(text, 5, 2)
        &&& text[7] == '-'
        &&& digits_at(text, 8, 2)
    }

    /// The text has the older form `YYYYMMDD`.
    pub open spec fn is_legacy_text(text: Seq<char>) -> bool {
        text.len() == 8 && digits_at(text, 0, 8)
    }

    /// The year, month and day that a text in one of the two forms holds,
    /// whether or not they make a date.
    pub open spec fn of_text(text: Seq<char>) -> Option<Ymd> {
        if Ymd::is_canonical_text(text) {
            Some(
                Ymd {
                    year: four_digit_value(text, 0),
                    month: two_digit_value(text, 5),
                    day: two_digit_value(text, 8),
                },
            )
        } else if Ymd::is_legacy_text(text) {
            Some(
                Ymd {
                    year: four_digit_value(text, 0),
                    month: two_digit_value(text, 4),
                    day: two_digit_value(text, 6),
                },
            )
        } else {
            None
        }
    }

    /// Order by year, then month, then day.
    pub open spec fn is_before(self, other: Ymd) -> bool {
        self.year < other.year || (self.year == other.year && (self.month < other.month || (
        self.month == other.month && self.day < other.day)))
    }
}

/// Why a year, month and day do not make a date.
#[derive(PartialEq, Eq, Structural, Debug, Copy, Clone)]
pub enum DateError {
    /// The year is above 9999.
    Year { year: u16, month: u8, day: u8 },
    /// The month is not within 1 to 12.
    Month { year: u16, month: u8, day: u8 },
    /// The month has no such day.
    Day { year: u16, month: u8, day: u8 },
    /// The day count is 0 or beyond that of 31 Dec 9999.
    DayCount { days: u32 },
}

/// The error that a year, month and day are refused with, if any.
pub open spec fn date_error(year: u16, month: u8, day: u8) -> Option<DateError> {
    if year > 9999 {
        Some(DateError::Year { year, month, day })
    } else if month < 1 || month > 12 {
        Some(DateError::Month { year, month, day })
    } else if day < 1 || day > days_in_month(month as int, year as int) {
        Some(DateError::Day { year, month, day })
    } else {
        None
    }
}

/// A year, month and day as an error shows them.
pub open spec fn triple_text(year: u16, month: u8, day: u8) -> Seq<char> {
    "DateTuple { y: "@ + decimal(year as nat) + ", m: "@ + decimal(month as nat) + ", d: "@
        + decimal(day as nat) + " }"@
}

/// Writes a year, month and day as an error shows them.
fn push_triple(out: &mut String, year: u16, month: u8, day: u8)
    ensures
        final(out)@ == old(out)@ + triple_text(year, month, day),
{
    out.append("DateTuple { y: ");
    push_decimal(out, year as u32);
    out.append(", m: ");
    push_decimal(out, month as u32);
    out.append(", d: ");
    push_decimal(out, day as u32);
    out.append(" }");
    assert(out@ =~= old(out)@ + triple_text(year, month, day));
}

impl DateError {
    /// The words that describe the error.
    pub open spec fn message(self) -> Seq<char> {
        match self {
            DateError::Year { year, month, day } => "Invalid year in "@ + triple_text(
                year,
                month,
                day,
            ) + ": year must be <= 9999."@,
            DateError::Month { year, month, day } => "Invalid month in "@ + triple_text(
                year,
                month,
                day,
            ) + ": month must be between 1 and 12."@,
            DateError::Day { year, month, day } => "Invalid date in "@ + triple_text(
                year,
                month,
                day,
            ) + ": the month has no such day."@,
            DateError::DayCount { days } => "Invalid day count "@ + decimal(days as nat)
                + ": must be between 1 and 3652425."@,
        }
    }

    /// Describes the error in words, with the numbers that were refused
    /// and the rule that they break.
    pub fn to_string(&self) -> (words: String)
        ensures
            words@ == self.message(),
    {
        let mut out = String::new();
        match self {
            DateError::Year { year, month, day } => {
                out.append("Invalid year in ");
                push_triple(&mut out, *year, *month, *day);
                out.append(": year must be <= 9999.");
            },
            DateError::Month { year, month, day } => {
                out.append("Invalid month in ");
                push_triple(&mut out, *year, *month, *day);
                out.append(": month must be between 1 and 12.");
            },
            DateError::Day { year, month, day } => {
                out.append("Invalid date in ");
                push_triple(&mut out, *year, *month, *day);
                out.append(": the month has no such day.");
            },
            DateError::DayCount { days } => {
                out.append("Invalid day count ");
                push_decimal(&mut out, *days);
                out.append(": must be between 1 and 3652425.");
            },
        }
        assert(out@ =~= self.message());
        out
    }
}

/// The words that describe why a text was not read as a date, or as a
/// date and time.
pub open spec fn date_parse_message(e: ParseError<DateError>) -> Seq<char> {
    match e {
        ParseError::Format(format) => format.message(),
        ParseError::Invalid(date) => "Invalid date passed to from_str: "@ + date.message(),
    }
}

impl ParseError<DateError> {
    /// Describes in words why a text was not read as a date, or as a date
    /// and time.
    pub fn to_string(&self) -> (words: String)
        ensures
            words@ == date_parse_message(*self),
    {
        match self {
            ParseError::Format(format) => format.to_string(),
            ParseError::Invalid(date) => {
                let mut out = String::new();
                out.append("Invalid date passed to from_str: ");
                out.append(date.to_string().as_str());
                assert(out@ =~= date_parse_message(*self));
                out
            },
        }
    }
}

/// Holds a specific date by year, month, and day.
///
/// Handles values from 01 Jan 0000 to 31 Dec 9999.
#[derive(PartialEq, Eq, Structural, Debug, Copy, Clone, Ord, Hash)]
pub struct DateTuple {
    y: u16,
    m: u8,
    d: u8,
}

impl View for DateTuple {
    type V = Ymd;

    closed spec fn view(&self) -> Ymd {
        Ymd { year: self.y as int, month: self.m as int, day: self.d as int }
    }
}

impl DateTuple {
    /// Every `DateTuple` is a day of the calendar.
    #[verifier::type_invariant]
    pub open spec fn is_valid(self) -> bool {
        self@.is_valid()
    }

    /// Two dates that stand for the same day are the same value.
    pub proof fn lemma_view_determines(self, other: DateTuple)
        requires
            self@ == other@,
        ensures
            self == other,
    {
    }

    /// Takes a year, month, and day and converts them into a DateTuple.
    ///
    /// Will not overlap - the date entered must be valid without further calculation.
    pub fn new(y: u16, m: u8, d: u8) -> (r: Result<DateTuple, DateError>)
        ensures
            r is Ok <==> (Ymd { year: y as int, month: m as int, day: d as int }).is_valid(),
            match r {
                Ok(date) => date_error(y, m, d) is None && date@ == (Ymd {
                    year: y as int,
                    month: m as int,
                    day: d as int,
                }),
                Err(e) => date_error(y, m, d) == Some(e),
            },
    {
        if y > MAX_YEAR {
            return Err(DateError::Year { year: y, month: m, day: d });
        }
        if 1 <= m && m <= 12 {
            if d == 0 || d > get_last_date_in_month(m, y) {
                return Err(DateError::Day { year: y, month: m, day: d });
            }
            Ok(DateTuple { y, m, d })
        } else {
            Err(DateError::Month { year: y, month: m, day: d })
        }
    }

    /// Returns the minimum date handled - 1st January 0000.
    pub fn min_value() -> (r: DateTuple)
        ensures
            r@ == Ymd::min(),
    {
        DateTuple { y: 0, m: 1, d: 1 }
    }

    /// Returns the maximum date handled - 31st December 9999.
    pub fn max_value() -> (r: DateTuple)
        ensures
            r@ == Ymd::max(),
    {
        DateTuple { y: 9999, m: 12, d: 31 }
    }

    /// Returns a `DateTuple` of the current date according to the system clock,
    /// which is not before 1 Jan 1970.
    pub fn today() -> (r: DateTuple)
        ensures
            UNIX_EPOCH_DAYS <= r@.day_number() <= MAX_DAYS,
    {
        now_as_datetuple()
    }

    pub fn get_year(self) -> (year: u16)
        ensures
            year == self@.year,
            year <= 9999,
    {
        proof {
            use_type_invariant(&self);
        }
        self.y
    }

    pub fn get_month(self) -> (month: u8)
        ensures
            month == self@.month,
            1 <= month <= 12,
    {
        proof {
            use_type_invariant(&self);
        }
        self.m
    }

    pub fn get_date(self) -> (day: u8)
        ensures
            day == self@.day,
            1 <= day <= days_in_month(self@.month, self@.year),
    {
        proof {
            use_type_invariant(&self);
        }
        self.d
    }

    /// Gets a DateTuple representing the date immediately following
    /// the current one. Will not go past Dec 9999.
    pub fn next_date(self) -> (r: DateTuple)
        ensures
            r@ == self@.next(),
    {
        proof {
            use_type_invariant(&self);
        }
        if self.y == 9999 && self.m == 12 && self.d == 31 {
            return self;
        }
        if self.d == get_last_date_in_month(self.m, self.y) {
            if self.m == 12 {
                DateTuple { y: self.y + 1, m: 1, d: 1 }
            } else {
                DateTuple { y: self.y, m: self.m + 1, d: 1 }
            }
        } else {
            DateTuple { y: self.y, m: self.m, d: self.d + 1 }
        }
    }

    /// Gets a DateTuple representing the date immediately preceding
    /// the current one. Will not go past 1 Jan 0000.
    pub fn previous_date(self) -> (r: DateTuple)
        ensures
            r@ == self@.previous(),
    {
        proof {
            use_type_invariant(&self);
        }
        if self.y == 0 && self.m == 1 && self.d == 1 {
            return self;
        }
        if self.d == 1 {
            if self.m == 1 {
                DateTuple { y: self.y - 1, m: 12, d: get_last_date_in_month(12, self.y - 1) }
            } else {
                DateTuple {
                    y: self.y,
                    m: self.m - 1,
                    d: get_last_date_in_month(self.m - 1, self.y),
                }
            }
        } else {
            DateTuple { y: self.y, m: self.m, d: self.d - 1 }
        }
    }

    /// Adds a number of days to a DateTuple, stopping at the last date
    /// handled.
    pub fn add_days(&mut self, days: u32)
        ensures
            final(self)@ == old(self)@.next_times(days as nat),
    {
        proof {
            use_type_invariant(&*self);
            lemma_next_times_day_number(self@, days as nat);
        }
        let start = self.to_days();
        let reached = if days >= MAX_DAYS - start {
            DateTuple::max_value()
        } else {
            match DateTuple::from_days(start + days) {
                Ok(date) => date,
                Err(_) => DateTuple::max_value(),
            }
        };
        proof {
            use_type_invariant(&reached);
            lemma_max_day_number();
            lemma_day_number_determines(reached@, self@.next_times(days as nat));
        }
        *self = reached;
    }

    /// Subtracts a number of days from a DateTuple, stopping at the first
    /// date handled.
    pub fn subtract_days(&mut self, days: u32)
        ensures
            final(self)@ == old(self)@.previous_times(days as nat),
    {
        proof {
            use_type_invariant(&*self);
            lemma_previous_times_day_number(self@, days as nat);
        }
        let start = self.to_days();
        let reached = if days >= start {
            DateTuple::min_value()
        } else {
            match DateTuple::from_days(start - days) {
                Ok(date) => date,
                Err(_) => DateTuple::min_value(),
            }
        };
        proof {
            use_type_invariant(&reached);
            lemma_min_day_number();
            lemma_day_number_determines(reached@, self@.previous_times(days as nat));
        }
        *self = reached;
    }

    /// Adds a number of months to a DateTuple.
    ///
    /// If the day of month is beyond the last date in the resulting month, the day of
    /// month will be set to the last day of that month.
    pub fn add_months(&mut self, months: u32)
        ensures
            final(self)@ == old(self)@.in_month_of(
                old(self)@.month_of().next_times(months as nat),
            ),
    {
        let mut new_month = MonthTuple::from(*self);
        new_month.add_months(months);
        *self = self.moved_to(new_month);
    }

    /// Subtracts a number of months from a DateTuple.
    ///
    /// If the day of month is beyond the last date in the resulting month, the day of
    /// month will be set to the last day of that month.
    pub fn subtract_months(&mut self, months: u32)
        ensures
            final(self)@ == old(self)@.in_month_of(
                old(self)@.month_of().previous_times(months as nat),
            ),
    {
        let mut new_month = MonthTuple::from(*self);
        new_month.subtract_months(months);
        *self = self.moved_to(new_month);
    }

    /// The same day of the month in `month`, or its last day where it is
    /// shorter.
    fn moved_to(self, month: MonthTuple) -> (r: DateTuple)
        ensures
            r@ == self@.in_month_of(month@),
    {
        proof {
            use_type_invariant(&self);
            use_type_invariant(&month);
        }
        let last_date_in_month = get_last_date_in_month(month.get_month(), month.get_year());
        let day: u8 = if self.d > last_date_in_month {
            last_date_in_month
        } else {
            self.d
        };
        DateTuple { y: month.get_year(), m: month.get_month(), d: day }
    }

    /// Adds a number of years to a DateTuple.
    ///
    /// If the date is set to Feb 29 and the resulting year is not a leap year,
    /// it will be changed to Feb 28. The year stops at 9999.
    pub fn add_years(&mut self, years: u16)
        ensures
            final(self)@ == old(self)@.in_year(
                if old(self)@.year + years > 9999 {
                    9999
                } else {
                    old(self)@.year + years
                },
            ),
    {
        proof {
            use_type_invariant(&*self);
        }
        let new_years: u16 = if years > MAX_YEAR - self.y {
            MAX_YEAR
        } else {
            self.y + years
        };
        let day: u8 = if self.m == 2 && self.d == 29 && !is_leap_year(new_years) {
            28
        } else {
            self.d
        };
        *self = DateTuple { y: new_years, m: self.m, d: day };
    }

    /// Subtracts a number of years from a DateTuple.
    ///
    /// If the date is set to Feb 29 and the resulting year is not a leap year,
    /// it will be changed to Feb 28. The year stops at 0.
    pub fn subtract_years(&mut self, years: u16)
        ensures
            final(self)@ == old(self)@.in_year(
                if old(self)@.year - years < 0 {
                    0
                } else {
                    old(self)@.year - years
                },
            ),
    {
        proof {
            use_type_invariant(&*self);
        }
        let new_years: u16 = if years > self.y {
            0
        } else {
            self.y - years
        };
        let day: u8 = if self.m == 2 && self.d == 29 && !is_leap_year(new_years) {
            28
        } else {
            self.d
        };
        *self = DateTuple { y: new_years, m: self.m, d: day };
    }

    /// Gets the total number of days in the tuple,
    /// with the first being `DateTuple::min_value()`.
    pub fn to_days(self) -> (days: u32)
        ensures
            days == self@.day_number(),
            1 <= days <= MAX_DAYS,
            Ymd::of_day_number(days as int) == self@,
    {
        proof {
            use_type_invariant(&self);
            lemma_day_number_round_trip(self@);
            lemma_days_before_year(self.y as int);
            lemma_day_number_bounds(self@);
        }
        let y: u32 = self.y as u32;
        let mut total_days: u32 = 365 * y + (y + 3) / 4 - (y + 99) / 100 + (y + 399) / 400;
        let mut m: u8 = 1;
        while m < self.m
            invariant
                1 <= m <= self.m <= 12,
                total_days == days_before_year(self.y as int) + days_before_month(
                    m as int,
                    self.y as int,
                ),
                total_days <= 3652060 + 31 * (m - 1),
            decreases self.m - m,
        {
            total_days += get_last_date_in_month(m, self.y) as u32;
            m += 1;
        }
        total_days + self.d as u32
    }

    /// Calculates years, months, and days from a total number of
    /// days, with the first being `DateTuple::min_value()`.
    pub fn from_days(total_days: u32) -> (r: Result<DateTuple, DateError>)
        ensures
            r is Ok <==> 1 <= total_days <= MAX_DAYS,
            match r {
                Ok(date) => date@ == Ymd::of_day_number(total_days as int) && date@.day_number()
                    == total_days,
                Err(e) => e == (DateError::DayCount { days: total_days }),
            },
    {
        if total_days == 0 || total_days > MAX_DAYS {
            return Err(DateError::DayCount { days: total_days });
        }
        proof {
            lemma_of_day_number(total_days as int);
        }
        let mut remaining: u32 = total_days;
        let mut years: u16 = 0;
        while remaining > year_length(years)
            invariant
                1 <= remaining,
                remaining + days_before_year(years as int) == total_days,
                years <= 9999,
                total_days <= MAX_DAYS,
            decreases remaining,
        {
            proof {
                lemma_days_before_year(10000);
                lemma_days_before_year_increases(years as int + 1, 10000);
            }
            remaining -= year_length(years);
            years += 1;
        }
        let mut months: u8 = 1;
        while remaining > get_last_date_in_month(months, years) as u32
            invariant
                1 <= remaining,
                1 <= months <= 12,
                years <= 9999,
                remaining + days_before_month(months as int, years as int) + days_before_year(
                    years as int,
                ) == total_days,
                remaining + days_before_month(months as int, years as int) <= days_in_year(
                    years as int,
                ),
            decreases remaining,
        {
            proof {
                lemma_days_before_month(months as int, years as int);
                lemma_days_before_month(months as int + 1, years as int);
            }
            remaining -= get_last_date_in_month(months, years) as u32;
            months += 1;
        }
        let date = DateTuple { y: years, m: months, d: remaining as u8 };
        proof {
            lemma_day_number_determines(date@, Ymd::of_day_number(total_days as int));
        }
        Ok(date)
    }
}

/// Number of days in `year`.
fn year_length(year: u16) -> (days: u32)
    ensures
        days == days_in_year(year as int),
{
    if is_leap_year(year) {
        366
    } else {
        365
    }
}

impl DateTuple {
    /// Produces a readable date.
    ///
    /// ## Examples
    /// * 2 Oct 2018
    /// * 13 Jan 2019
    pub fn to_readable_string(self) -> (text: String)
        ensures
            text@ == self@.readable_text(),
    {
        proof {
            reveal_strlit(" ");
        }
        let month = MonthTuple::from(self);
        let mut out = String::new();
        push_decimal(&mut out, self.d as u32);
        out.append(" ");
        out.append(month.to_readable_string().as_str());
        assert(out@ =~= self@.readable_text());
        out
    }

    /// Gets a string to use for storage, formatted like 2018-11-02. This
    /// string can be read back by `str::parse`.
    pub fn to_string(self) -> (text: String)
        ensures
            text@ == self@.canonical_text(),
            Ymd::of_text(text@) == Some(self@),
    {
        proof {
            use_type_invariant(&self);
            reveal_strlit("-");
            lemma_date_text_round_trip(self@);
        }
        let mut out = String::new();
        push_four_digits(&mut out, self.y);
        out.append("-");
        push_two_digits(&mut out, self.m);
        out.append("-");
        push_two_digits(&mut out, self.d);
        assert(out@ =~= self@.canonical_text());
        out
    }

    /// Reads the year, month and day of a text in one of the two forms.
    fn read_parts(s: &str) -> (r: Option<(u16, u8, u8)>)
        ensures
            match r {
                Some((y, m, d)) => Ymd::of_text(s@) == Some(
                    Ymd { year: y as int, month: m as int, day: d as int },
                ),
                None => Ymd::of_text(s@) is None,
            },
    {
        match ascii_len(s) {
            Some(10) => {
                match (
                    read_four_digits(s, 0),
                    is_char_at(s, 4, 45),
                    read_two_digits(s, 5),
                    is_char_at(s, 7, 45),
                    read_two_digits(s, 8),
                ) {
                    (Some(y), true, Some(m), true, Some(d)) => Some((y, m, d)),
                    _ => None,
                }
            },
            Some(8) => {
                assert(digits_at(s@, 0, 8) <==> digits_at(s@, 0, 4) && digits_at(s@, 4, 2)
                    && digits_at(s@, 6, 2));
                match (read_four_digits(s, 0), read_two_digits(s, 4), read_two_digits(s, 6)) {
                    (Some(y), Some(m), Some(d)) => Some((y, m, d)),
                    _ => None,
                }
            },
            _ => None,
        }
    }
}

impl FromStr for DateTuple {
    type Err = ParseError<DateError>;

    /// Expects a string formatted like 2018-11-02.
    ///
    /// Also accepts the older format 20181102.
    fn from_str(s: &str) -> (r: Result<DateTuple, ParseError<DateError>>)
        ensures
            r is Ok <==> Ymd::of_text(s@) is Some && Ymd::of_text(s@)->0.is_valid(),
            match r {
                Ok(date) => Ymd::of_text(s@) == Some(date@),
                Err(ParseError::Format(e)) => Ymd::of_text(s@) is None && e.text@ == s@
                    && e.example@ == "2018-11-02"@,
                Err(ParseError::Invalid(e)) => Ymd::of_text(s@) is Some && date_error(
                    Ymd::of_text(s@)->0.year as u16,
                    Ymd::of_text(s@)->0.month as u8,
                    Ymd::of_text(s@)->0.day as u8,
                ) == Some(e),
            },
    {
        match DateTuple::read_parts(s) {
            Some((y, m, d)) => match DateTuple::new(y, m, d) {
                Ok(date) => {
                    proof {
                        use_type_invariant(&date);
                    }
                    Ok(date)
                },
                Err(e) => Err(ParseError::Invalid(e)),
            },
            None => Err(ParseError::Format(format_error(s, "2018-11-02"))),
        }
    }
}

impl PartialOrd for DateTuple {
    fn partial_cmp(&self, other: &DateTuple) -> (r: Option<Ordering>) {
        if self.y == other.y {
            if self.m == other.m {
                if self.d < other.d {
                    Some(Ordering::Less)
                } else if self.d == other.d {
                    Some(Ordering::Equal)
                } else {
                    Some(Ordering::Greater)
                }
            } else if self.m < other.m {
                Some(Ordering::Less)
            } else {
                Some(Ordering::Greater)
            }
        } else if self.y < other.y {
            Some(Ordering::Less)
        } else {
            Some(Ordering::Greater)
        }
    }
}

impl PartialOrdSpecImpl for DateTuple {
    open spec fn obeys_partial_cmp_spec() -> bool {
        true
    }

    open spec fn partial_cmp_spec(&self, other: &DateTuple) -> Option<Ordering> {
        if self@.is_before(other@) {
            Some(Ordering::Less)
        } else if other@.is_before(self@) {
            Some(Ordering::Greater)
        } else {
            Some(Ordering::Equal)
        }
    }
}

/// The day count of a valid day is within 1 and that of 31 Dec 9999, and
/// the day is within its year.
pub proof fn lemma_day_number_bounds(date: Ymd)
    requires
        date.is_valid(),
    ensures
        1 <= date.day_number() <= MAX_DAYS,
        days_before_year(date.year) < date.day_number() <= days_before_year(date.year + 1),
        days_before_month(date.month, date.year) + days_in_month(date.month, date.year)
            == days_before_month(date.month + 1, date.year),
        days_before_month(date.month + 1, date.year) <= days_in_year(date.year),
{
    lemma_days_before_month(date.month, date.year);
    lemma_days_before_month(date.month + 1, date.year);
    lemma_days_before_year(10000);
    lemma_days_before_year_increases(0, date.year);
    lemma_days_before_year_increases(date.year + 1, 10000);
}

/// The day count of the first day held is 1.
pub proof fn lemma_min_day_number()
    ensures
        Ymd::min().day_number() == 1,
{
    lemma_days_before_month(1, 0);
}

/// The day count of the last day held is `MAX_DAYS`.
pub proof fn lemma_max_day_number()
    ensures
        Ymd::max().day_number() == MAX_DAYS,
{
    lemma_days_before_month(12, 9999);
    lemma_days_before_year(9999);
}

/// An earlier day has a smaller day count.
pub proof fn lemma_day_number_increases(earlier: Ymd, later: Ymd)
    requires
        earlier.is_valid(),
        later.is_valid(),
        earlier.is_before(later),
    ensures
        earlier.day_number() < later.day_number(),
{
    lemma_day_number_bounds(earlier);
    lemma_day_number_bounds(later);
    if earlier.year < later.year {
        lemma_days_before_year_increases(earlier.year + 1, later.year);
    } else if earlier.month < later.month {
        lemma_days_before_month(earlier.month + 1, earlier.year);
        lemma_days_before_month(later.month, later.year);
    }
}

/// Of two days of the calendar, the one that is ordered first (by year,
/// then month, then day) is the one with the smaller day count.
pub proof fn lemma_is_before_by_day_number(a: Ymd, b: Ymd)
    requires
        a.is_valid(),
        b.is_valid(),
    ensures
        a.is_before(b) <==> a.day_number() < b.day_number(),
{
    if a.is_before(b) {
        lemma_day_number_increases(a, b);
    } else if b.is_before(a) {
        lemma_day_number_increases(b, a);
    }
}

/// Two valid days with the same day count are the same day.
pub proof fn lemma_day_number_determines(a: Ymd, b: Ymd)
    requires
        a.is_valid(),
        b.is_valid(),
        a.day_number() == b.day_number(),
    ensures
        a == b,
{
    if a.is_before(b) {
        lemma_day_number_increases(a, b);
    } else if b.is_before(a) {
        lemma_day_number_increases(b, a);
    }
}

/// The following day is a day of the calendar, one later in the day
/// count unless there is none.
pub proof fn lemma_next_day_number(date: Ymd)
    requires
        date.is_valid(),
    ensures
        date.next().is_valid(),
        date.next().day_number() == (if date == Ymd::max() {
            date.day_number()
        } else {
            date.day_number() + 1
        }),
{
    lemma_day_number_bounds(date);
    lemma_days_before_month(13, date.year);
    lemma_days_before_month(1, date.year + 1);
}

/// The preceding day is a day of the calendar, one earlier in the day
/// count unless there is none.
pub proof fn lemma_previous_day_number(date: Ymd)
    requires
        date.is_valid(),
    ensures
        date.previous().is_valid(),
        date.previous().day_number() == (if date == Ymd::min() {
            date.day_number()
        } else {
            date.day_number() - 1
        }),
{
    lemma_days_before_month(date.month, date.year);
    if date != Ymd::min() && date.day == 1 {
        if date.month > 1 {
            lemma_days_before_month(date.month - 1, date.year);
        } else {
            lemma_days_before_month(12, date.year - 1);
            lemma_days_before_month(13, date.year - 1);
        }
    }
}

/// However many steps are taken, there is no day after the last day held
/// and none before the first.
pub proof fn lemma_steps_stop_at_the_ends(count: nat)
    ensures
        Ymd::max().next() == Ymd::max(),
        Ymd::min().previous() == Ymd::min(),
        Ymd::max().next_times(count) == Ymd::max(),
        Ymd::min().previous_times(count) == Ymd::min(),
    decreases count,
{
    if count > 0 {
        lemma_steps_stop_at_the_ends((count - 1) as nat);
    }
}

/// Stepping forward `count` times adds `count` to the day count, up to
/// that of the last day held.
pub proof fn lemma_next_times_day_number(date: Ymd, count: nat)
    requires
        date.is_valid(),
    ensures
        date.next_times(count).is_valid(),
        date.next_times(count).day_number() == (if date.day_number() + count > MAX_DAYS {
            MAX_DAYS as int
        } else {
            date.day_number() + count
        }),
    decreases count,
{
    lemma_day_number_bounds(date);
    if count > 0 {
        let before = date.next_times((count - 1) as nat);
        lemma_next_times_day_number(date, (count - 1) as nat);
        lemma_next_day_number(before);
        lemma_max_day_number();
        if before != Ymd::max() {
            lemma_day_number_bounds(before.next());
        }
    }
}

/// Stepping back `count` times takes `count` from the day count, down to
/// that of the first day held.
pub proof fn lemma_previous_times_day_number(date: Ymd, count: nat)
    requires
        date.is_valid(),
    ensures
        date.previous_times(count).is_valid(),
        date.previous_times(count).day_number() == (if date.day_number() - count < 1 {
            1
        } else {
            date.day_number() - count
        }),
    decreases count,
{
    lemma_day_number_bounds(date);
    if count > 0 {
        let before = date.previous_times((count - 1) as nat);
        lemma_previous_times_day_number(date, (count - 1) as nat);
        lemma_previous_day_number(before);
        lemma_min_day_number();
        if before != Ymd::min() {
            lemma_day_number_bounds(before.previous());
        }
    }
}

/// The day with a day count from 1 to `MAX_DAYS` is a day of the calendar
/// and has that day count: a day made from a day count gives the count
/// back.
pub proof fn lemma_of_day_number(count: int)
    requires
        1 <= count <= MAX_DAYS,
    ensures
        Ymd::of_day_number(count).is_valid(),
        Ymd::of_day_number(count).day_number() == count,
{
    lemma_min_day_number();
    lemma_next_times_day_number(Ymd::min(), (count - 1) as nat);
}

/// A day of the calendar is the day with its own day count: a day count
/// taken from a day gives the day back.
pub proof fn lemma_day_number_round_trip(date: Ymd)
    requires
        date.is_valid(),
    ensures
        Ymd::of_day_number(date.day_number()) == date,
{
    lemma_day_number_bounds(date);
    lemma_of_day_number(date.day_number());
    lemma_day_number_determines(Ymd::of_day_number(date.day_number()), date);
}

/// A date written as it is stored is read back as itself.
pub proof fn lemma_date_text_round_trip(date: Ymd)
    requires
        date.is_valid(),
    ensures
        Ymd::of_text(date.canonical_text()) == Some(date),
{
    let text = date.canonical_text();
    assert(text.subrange(0, 4) =~= four_digits(date.year));
    assert(text.subrange(5, 7) =~= two_digits(date.month));
    assert(text.subrange(8, 10) =~= two_digits(date.day));
    lemma_four_digits_at(text, 0, date.year);
    lemma_two_digits_at(text, 5, date.month);
    lemma_two_digits_at(text, 8, date.day);
}

} // verus!
