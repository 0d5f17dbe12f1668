//! Months of a specific year, from Jan 0000 to Dec 9999.

use crate::date_tuple::DateTuple;
use crate::date_utils::{now_as_monthtuple, MAX_YEAR};
use crate::text::{
    ascii_len, decimal, digits_at, format_error, four_digit_value, four_digits, is_char_at,
    lemma_four_digits_at, lemma_two_digits_at, push_decimal, push_four_digits, push_two_digits,
    read_four_digits, read_two_digits, two_digit_value, two_digits, ParseError,
};
use std::cmp::Ordering;
use std::convert::From;
use std::str::FromStr;
use vstd::prelude::*;
use vstd::std_specs::cmp::PartialOrdSpecImpl;
use vstd::std_specs::convert::FromSpecImpl;
use vstd::string::*;

verus! {

pub type Month = MonthTuple;

/// Number of months from Jan 0000 to Dec 9999, both included.
pub const MAX_MONTHS: u32 = 120000;

/// A month of a year as two mathematical integers: what a `MonthTuple`
/// stands for in contracts.
pub struct Ym {
    pub year: int,
    pub month: int,
}

impl Ym {
    /// The month is one of the twelve and its year is within 0 to 9999.
    pub open spec fn is_valid(self) -> bool {
        0 <= self.year <= 9999 && 1 <= self.month <= 12
    }

    /// The first month held: Jan 0000.
    pub open spec fn min() -> Ym {
        Ym { year: 0, month: 1 }
    }

    /// The last month held: Dec 9999.
    pub open spec fn max() -> Ym {
        Ym { year: 9999, month: 12 }
    }

    /// The month count, with 0 for Jan 0000.
    pub open spec fn month_number(self) -> int {
        12 * self.year + self.month - 1
    }

    /// The following month; the last month held is followed by itself.
    pub open spec fn next(self) -> Ym {
        if self == Ym::max() {
            self
        } else if self.month == 12 {
            Ym { year: self.year + 1, month: 1 }
        } else {
            Ym { year: self.year, month: self.month + 1 }
        }
    }

    /// The preceding month; the first month held is preceded by itself.
    pub open spec fn previous(self) -> Ym {
        if self == Ym::min() {
            self
        } else if self.month == 1 {
            Ym { year: self.year - 1, month: 12 }
        } else {
            Ym { year: self.year, month: self.month - 1 }
        }
    }

    /// The month reached by `count` steps to the following month.
    pub open spec fn next_times(self, count: nat) -> Ym
        decreases count,
    {
        if count == 0 {
            self
        } else {
            self.next_times((count - 1) as nat).next()
        }
    }

    /// The month reached by `count` steps to the preceding month.
    pub open spec fn previous_times(self, count: nat) -> Ym
        decreases count,
    {
        if count == 0 {
            self
        } else {
            self.previous_times((count - 1) as nat).previous()
        }
    }

    /// The same month in another year.
    pub open spec fn in_year(self, year: int) -> Ym {
        Ym { year, month: self.month }
    }

    /// Order by year, then month.
    pub open spec fn is_before(self, other: Ym) -> bool {
        self.year < other.year || (self.year == other.year && self.month < other.month)
    }

    /// The month as it is stored: `YYYY-MM`.
    pub open spec fn canonical_text(self) -> Seq<char> {
        four_digits(self.year) + seq!['-'] + two_digits(self.month)
    }

    /// The month as it is shown to a reader: `Mon YYYY`.
    pub open spec fn readable_text(self) -> Seq<char> {
        month_abbreviation(self.month) + seq![' '] + four_digits(self.year)
    }

    /// The text has the form `YYYY-MM`.
    pub open spec fn is_canonical_text(text: Seq<char>) -> bool {
        &&& text.len() == 7
        &&& digits_at(text, 0, 4)
        &&& text[4] == '-'
        &&& digits_at(text, 5, 2)
    }

    /// The text has the older form `YYYYMM`.
    pub open spec fn is_legacy_text(text: Seq<char>) -> bool {
        text.len() == 6 && digits_at(text, 0, 6)
    }

    /// The year and month that a text in one of the two forms holds,
    /// whether or not they make a month.
    pub open spec fn of_text(text: Seq<char>) -> Option<Ym> {
        if Ym::is_canonical_text(text) {
            Some(Ym { year: four_digit_value(text, 0), month: two_digit_value(text, 5) })
        } else if Ym::is_legacy_text(text) {
            Some(Ym { year: four_digit_value(text, 0), month: two_digit_value(text, 4) })
        } else {
            None
        }
    }
}

/// The English three-letter name of a month, for the months 1 to 12.
pub open spec fn month_abbreviation(month: int) -> Seq<char> {
    if month == 1 {
        "Jan"@
    } else if month == 2 {
        "Feb"@
    } else if month == 3 {
        "Mar"@
    } else if month == 4 {
        "Apr"@
    } else if month == 5 {
        "May"@
    } else if month == 6 {
        "Jun"@
    } else if month == 7 {
        "Jul"@
    } else if month == 8 {
        "Aug"@
    } else if month == 9 {
        "Sep"@
    } else if month == 10 {
        "Oct"@
    } else if month == 11 {
        "Nov"@
    } else {
        "Dec"@
    }
}

/// Why a year and month do not make a `MonthTuple`.
#[derive(PartialEq, Eq, Structural, Debug, Copy, Clone)]
pub enum MonthError {
    /// The month is not within 1 to 12.
    Month { year: u16, month: u8 },
    /// The year is above 9999.
    Year { year: u16, month: u8 },
}

/// The error that a year and month are refused with, if any.
pub open spec fn month_error(year: u16, month: u8) -> Option<MonthError> {
    if month < 1 || month > 12 {
        Some(MonthError::Month { year, month })
    } else if year > 9999 {
        Some(MonthError::Year { year, month })
    } else {
        None
    }
}

impl MonthError {
    /// The words that describe the error.
    pub open spec fn message(self) -> Seq<char> {
        match self {
            MonthError::Month { year, month } => "Invalid month in MonthTuple { y: "@ + decimal(
                year as nat,
            ) + ", m: "@ + decimal(month as nat) + " }: month must be between 1 and 12."@,
            MonthError::Year { year, month } => "Invalid year in MonthTuple { y: "@ + decimal(
                year as nat,
            ) + ", m: "@ + decimal(month as nat) + " }: year must be <= 9999."@,
        }
    }

    /// Describes the error in words, with the year and month that were
    /// refused and the rule that they break.
    pub fn to_string(&self) -> (words: String)
        ensures
            words@ == self.message(),
    {
        let mut out = String::new();
        match self {
            MonthError::Month { year, month } => {
                out.append("Invalid month in MonthTuple { y: ");
                push_decimal(&mut out, *year as u32);
                out.append(", m: ");
                push_decimal(&mut out, *month as u32);
                out.append(" }: month must be between 1 and 12.");
            },
            MonthError::Year { year, month } => {
                out.append("Invalid year in MonthTuple { y: ");
                push_decimal(&mut out, *year as u32);
                out.append(", m: ");
                push_decimal(&mut out, *month as u32);
                out.append(" }: year must be <= 9999.");
            },
        }
        assert(out@ =~= self.message());
        out
    }
}

/// The words that describe why a text was not read as a month.
pub open spec fn month_parse_message(e: ParseError<MonthError>) -> Seq<char> {
    match e {
        ParseError::Format(format) => format.message(),
        ParseError::Invalid(month) => "Invalid month passed to from_str: "@ + month.message(),
    }
}

impl ParseError<MonthError> {
    /// Describes in words why a text was not read as a month.
    pub fn to_string(&self) -> (words: String)
        ensures
            words@ == month_parse_message(*self),
    {
        match self {
            ParseError::Format(format) => format.to_string(),
            ParseError::Invalid(month) => {
                let mut out = String::new();
                out.append("Invalid month passed to from_str: ");
                out.append(month.to_string().as_str());
                assert(out@ =~= month_parse_message(*self));
                out
            },
        }
    }
}

/// A container for a month of a specific year.
///
/// The month is one-based (one represents January).
///
/// Only handles values between Jan 0000 and Dec 9999 (inclusive).
#[derive(PartialEq, Eq, Structural, Debug, Copy, Clone, Ord, Hash)]
pub struct MonthTuple {
    y: u16,
    m: u8,
}

impl View for MonthTuple {
    type V = Ym;

    closed spec fn view(&self) -> Ym {
        Ym { year: self.y as int, month: self.m as int }
    }
}

impl MonthTuple {
    /// Every `MonthTuple` is a month of the calendar.
    #[verifier::type_invariant]
    pub open spec fn is_valid(self) -> bool {
        self@.is_valid()
    }

    /// Two values that stand for the same month are the same value.
    pub proof fn lemma_view_determines(self, other: MonthTuple)
        requires
            self@ == other@,
        ensures
            self == other,
    {
    }

    /// Produces a new MonthTuple.
    ///
    /// Only accepts a valid month value (`1 <= m <= 12`).
    ///
    /// Only accepts a valid year value (`0 <= y <= 9999`).
    pub fn new(y: u16, m: u8) -> (r: Result<MonthTuple, MonthError>)
        ensures
            r is Ok <==> (Ym { year: y as int, month: m as int }).is_valid(),
            match r {
                Ok(month) => month_error(y, m) is None && month@ == (Ym {
                    year: y as int,
                    month: m as int,
                }),
                Err(e) => month_error(y, m) == Some(e),
            },
    {
        if 1 <= m && m <= 12 {
            if y <= MAX_YEAR {
                Ok(MonthTuple { y, m })
            } else {
                Err(MonthError::Year { year: y, month: m })
            }
        } else {
            Err(MonthError::Month { year: y, month: m })
        }
    }

    /// Returns a `MonthTuple` of the current month according to the system clock,
    /// which is not before Jan 1970.
    pub fn this_month() -> (r: MonthTuple)
        ensures
            1970 <= r@.year,
    {
        now_as_monthtuple()
    }

    pub fn get_year(self) -> (year: u16)
        ensures
            year == self@.year,
            year <= 9999,
    {
        proof {
            use_type_invariant(&self);
        }
        self.y
    }

    /// Retrieves the month component of the tuple.
    ///
    /// Note this month is **ONE-BASED** (one represents January).
    pub fn get_month(self) -> (month: u8)
        ensures
            month == self@.month,
            1 <= month <= 12,
    {
        proof {
            use_type_invariant(&self);
        }
        self.m
    }

    /// Gets a MonthTuple representing the month immediately following
    /// the current one. Will not go past Dec 9999.
    pub fn next_month(self) -> (r: MonthTuple)
        ensures
            r@ == self@.next(),
    {
        proof {
            use_type_invariant(&self);
        }
        if self.y == 9999 && self.m == 12 {
            return self;
        }
        if self.m == 12 {
            MonthTuple { y: self.y + 1, m: 1 }
        } else {
            MonthTuple { y: self.y, m: self.m + 1 }
        }
    }

    /// Gets a MonthTuple representing the month immediately preceding
    /// the current one. Will not go past Jan 0000.
    pub fn previous_month(self) -> (r: MonthTuple)
        ensures
            r@ == self@.previous(),
    {
        proof {
            use_type_invariant(&self);
        }
        if self.y == 0 && self.m == 1 {
            return self;
        }
        if self.m == 1 {
            MonthTuple { y: self.y - 1, m: 12 }
        } else {
            MonthTuple { y: self.y, m: self.m - 1 }
        }
    }

    /// Adds a number of months to a MonthTuple, stopping at Dec 9999.
    pub fn add_months(&mut self, months: u32)
        ensures
            final(self)@ == old(self)@.next_times(months as nat),
    {
        proof {
            use_type_invariant(&*self);
            lemma_next_times_month_number(self@, months as nat);
        }
        let start: u32 = 12 * (self.y as u32) + (self.m as u32 - 1);
        let reached: u32 = if months >= MAX_MONTHS - start {
            MAX_MONTHS - 1
        } else {
            start + months
        };
        *self = MonthTuple { y: (reached / 12) as u16, m: (reached % 12 + 1) as u8 };
    }

    /// Subtracts a number of months from a MonthTuple, stopping at Jan 0000.
    pub fn subtract_months(&mut self, months: u32)
        ensures
            final(self)@ == old(self)@.previous_times(months as nat),
    {
        proof {
            use_type_invariant(&*self);
            lemma_previous_times_month_number(self@, months as nat);
        }
        let start: u32 = 12 * (self.y as u32) + (self.m as u32 - 1);
        let reached: u32 = if months >= start {
            0
        } else {
            start - months
        };
        *self = MonthTuple { y: (reached / 12) as u16, m: (reached % 12 + 1) as u8 };
    }

    /// Adds a number of years to a MonthTuple, stopping at 9999.
    pub fn add_years(&mut self, years: u16)
        ensures
            final(self)@ == old(self)@.in_year(
                if old(self)@.year + years > 9999 {
                    9999
                } else {
                    old(self)@.year + years
                },
            ),
    {
        proof {
            use_type_invariant(&*self);
        }
        let new_years: u16 = if years > MAX_YEAR - self.y {
            MAX_YEAR
        } else {
            self.y + years
        };
        *self = MonthTuple { y: new_years, m: self.m };
    }

    /// Subtracts a number of years from a MonthTuple, stopping at 0.
    pub fn subtract_years(&mut self, years: u16)
        ensures
            final(self)@ == old(self)@.in_year(
                if old(self)@.year - years < 0 {
                    0
                } else {
                    old(self)@.year - years
                },
            ),
    {
        proof {
            use_type_invariant(&*self);
        }
        let new_years: u16 = if years > self.y {
            0
        } else {
            self.y - years
        };
        *self = MonthTuple { y: new_years, m: self.m };
    }
}

/// The English three-letter name of a month.
pub(crate) fn month_name(month: u8) -> (name: &'static str)
    requires
        1 <= month <= 12,
    ensures
        name@ == month_abbreviation(month as int),
{
    match month {
        1 => "Jan",
        2 => "Feb",
        3 => "Mar",
        4 => "Apr",
        5 => "May",
        6 => "Jun",
        7 => "Jul",
        8 => "Aug",
        9 => "Sep",
        10 => "Oct",
        11 => "Nov",
        _ => "Dec",
    }
}

impl MonthTuple {
    /// Returns the month formatted to be human-readable.
    ///
    /// ## Examples
    /// * Jan 2018
    /// * Dec 1994
    pub fn to_readable_string(self) -> (text: String)
        ensures
            text@ == self@.readable_text(),
    {
        proof {
            use_type_invariant(&self);
            reveal_strlit(" ");
        }
        let mut out = String::new();
        out.append(month_name(self.m));
        out.append(" ");
        push_four_digits(&mut out, self.y);
        assert(out@ =~= self@.readable_text());
        out
    }

    /// Gets a string to use for storage, formatted like 2018-11. This
    /// string can be read back by `str::parse`.
    pub fn to_string(self) -> (text: String)
        ensures
            text@ == self@.canonical_text(),
            Ym::of_text(text@) == Some(self@),
    {
        proof {
            use_type_invariant(&self);
            reveal_strlit("-");
            lemma_month_text_round_trip(self@);
        }
        let mut out = String::new();
        push_four_digits(&mut out, self.y);
        out.append("-");
        push_two_digits(&mut out, self.m);
        assert(out@ =~= self@.canonical_text());
        out
    }

    /// Reads the year and the month of a text in one of the two forms.
    fn read_parts(s: &str) -> (r: Option<(u16, u8)>)
        ensures
            match r {
                Some((y, m)) => Ym::of_text(s@) == Some(Ym { year: y as int, month: m as int }),
                None => Ym::of_text(s@) is None,
            },
    {
        match ascii_len(s) {
            Some(7) => {
                match (read_four_digits(s, 0), is_char_at(s, 4, 45), read_two_digits(s, 5)) {
                    (Some(y), true, Some(m)) => Some((y, m)),
                    _ => None,
                }
            },
            Some(6) => {
                assert(digits_at(s@, 0, 6) <==> digits_at(s@, 0, 4) && digits_at(s@, 4, 2));
                match (read_four_digits(s, 0), read_two_digits(s, 4)) {
                    (Some(y), Some(m)) => Some((y, m)),
                    _ => None,
                }
            },
            _ => None,
        }
    }
}

impl FromStr for MonthTuple {
    type Err = ParseError<MonthError>;

    /// Expects a string formatted like 2018-11.
    ///
    /// Also accepts the older format 201811.
    fn from_str(s: &str) -> (r: Result<MonthTuple, ParseError<MonthError>>)
        ensures
            r is Ok <==> Ym::of_text(s@) is Some && Ym::of_text(s@)->0.is_valid(),
            match r {
                Ok(month) => Ym::of_text(s@) == Some(month@),
                Err(ParseError::Format(e)) => Ym::of_text(s@) is None && e.text@ == s@
                    && e.example@ == "2018-11"@,
                Err(ParseError::Invalid(e)) => Ym::of_text(s@) is Some && month_error(
                    Ym::of_text(s@)->0.year as u16,
                    Ym::of_text(s@)->0.month as u8,
                ) == Some(e),
            },
    {
        match MonthTuple::read_parts(s) {
            Some((y, m)) => match MonthTuple::new(y, m) {
                Ok(month) => {
                    proof {
                        use_type_invariant(&month);
                    }
                    Ok(month)
                },
                Err(e) => Err(ParseError::Invalid(e)),
            },
            None => Err(ParseError::Format(format_error(s, "2018-11"))),
        }
    }
}

impl PartialOrd for MonthTuple {
    fn partial_cmp(&self, other: &MonthTuple) -> (r: Option<Ordering>) {
        if self.y == other.y {
            if self.m < other.m {
                Some(Ordering::Less)
            } else if self.m == other.m {
                Some(Ordering::Equal)
            } else {
                Some(Ordering::Greater)
            }
        } else if self.y < other.y {
            Some(Ordering::Less)
        } else {
            Some(Ordering::Greater)
        }
    }
}

impl PartialOrdSpecImpl for MonthTuple {
    open spec fn obeys_partial_cmp_spec() -> bool {
        true
    }

    open spec fn partial_cmp_spec(&self, other: &MonthTuple) -> Option<Ordering> {
        if self@.is_before(other@) {
            Some(Ordering::Less)
        } else if other@.is_before(self@) {
            Some(Ordering::Greater)
        } else {
            Some(Ordering::Equal)
        }
    }
}

impl From<DateTuple> for MonthTuple {
    /// The month that a date lies in.
    fn from(date: DateTuple) -> (r: MonthTuple)
        ensures
            r@ == date@.month_of(),
    {
        MonthTuple { y: date.get_year(), m: date.get_month() }
    }
}

impl FromSpecImpl<DateTuple> for MonthTuple {
    open spec fn obeys_from_spec() -> bool {
        true
    }

    closed spec fn from_spec(date: DateTuple) -> MonthTuple {
        MonthTuple { y: date@.year as u16, m: date@.month as u8 }
    }
}

/// Stepping forward `count` times adds `count` to the month count, up to
/// that of the last month held.
pub proof fn lemma_next_times_month_number(start: Ym, count: nat)
    requires
        start.is_valid(),
    ensures
        start.next_times(count).is_valid(),
        start.next_times(count).month_number() == (if start.month_number() + count >= MAX_MONTHS {
            MAX_MONTHS - 1
        } else {
            start.month_number() + count
        }),
    decreases count,
{
    if count > 0 {
        lemma_next_times_month_number(start, (count - 1) as nat);
    }
}

/// Stepping back `count` times takes `count` from the month count, down
/// to that of the first month held.
pub proof fn lemma_previous_times_month_number(start: Ym, count: nat)
    requires
        start.is_valid(),
    ensures
        start.previous_times(count).is_valid(),
        start.previous_times(count).month_number() == (if start.month_number() - count < 0 {
            0
        } else {
            start.month_number() - count
        }),
    decreases count,
{
    if count > 0 {
        lemma_previous_times_month_number(start, (count - 1) as nat);
    }
}

/// A month written as it is stored is read back as itself.
pub proof fn lemma_month_text_round_trip(month: Ym)
    requires
        month.is_valid(),
    ensures
        Ym::of_text(month.canonical_text()) == Some(month),
{
    let text = month.canonical_text();
    assert(text.subrange(0, 4) =~= four_digits(month.year));
    assert(text.subrange(5, 7) =~= two_digits(month.month));
    lemma_four_digits_at(text, 0, month.year);
    lemma_two_digits_at(text, 5, month.month);
}

} // verus!
