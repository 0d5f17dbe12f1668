//! Times of day, which wrap around 24 hours, and durations, which do not.

use crate::date_time_tuple::DateTimeTuple;
use crate::date_utils::now_as_timetuple;
use crate::text::{
    ascii_len, decimal, decimal_value, digits_at, format_error, is_char_at, is_digit,
    lemma_decimal_value, lemma_two_digits_at, push_decimal, push_two_digits, read_digit,
    read_two_digits, two_digit_value, two_digits, FormatError, ParseError,
};
use std::cmp::Ordering;
use std::convert::From;
use std::ops::{Add, AddAssign, Sub, SubAssign};
use std::str::FromStr;
use vstd::prelude::*;
use vstd::std_specs::cmp::PartialOrdSpecImpl;
use vstd::std_specs::convert::FromSpecImpl;
use vstd::std_specs::ops::{AddSpecImpl, SubSpecImpl};
use vstd::string::*;

verus! {

pub type Time = TimeTuple;

pub type TimeOfDay = TimeTuple;

/// The longest duration held, in seconds: `u32::MAX` hours, 59 minutes and
/// 59 seconds.
pub const MAX_DURATION_SECONDS: u64 = 15461882265599;

/// Hours, minutes and seconds as three mathematical integers: what a
/// `TimeTuple` and a `Duration` stand for in contracts.
pub struct Hms {
    pub hours: int,
    pub minutes: int,
    pub seconds: int,
}

impl Hms {
    /// The three parts as one number of seconds.
    pub open spec fn total_seconds(self) -> int {
        3600 * self.hours + 60 * self.minutes + self.seconds
    }

    /// A number of seconds split into hours, minutes below 60 and seconds
    /// below 60.
    pub open spec fn of_seconds(total: int) -> Hms {
        Hms { hours: total / 3600, minutes: (total % 3600) / 60, seconds: total % 60 }
    }

    /// A number of seconds, negative or not, wrapped around 24 hours and
    /// split into hours below 24, minutes and seconds.
    pub open spec fn of_seconds_wrapped(total: int) -> Hms {
        Hms::of_seconds(total % 86400)
    }

    /// A moment within one day.
    pub open spec fn is_time_of_day(self) -> bool {
        0 <= self.hours < 24 && 0 <= self.minutes < 60 && 0 <= self.seconds < 60
    }

    /// An elapsed time whose hours fit in 32 bits.
    pub open spec fn is_duration(self) -> bool {
        0 <= self.hours <= u32::MAX && 0 <= self.minutes < 60 && 0 <= self.seconds < 60
    }

    /// A time of day as it is stored: `HH:MM:SS`.
    pub open spec fn clock_text(self) -> Seq<char> {
        two_digits(self.hours) + seq![':'] + two_digits(self.minutes) + seq![':'] + two_digits(
            self.seconds,
        )
    }

    /// A time of day without its seconds: `HH:MM`.
    pub open spec fn clock_hhmm_text(self) -> Seq<char> {
        two_digits(self.hours) + seq![':'] + two_digits(self.minutes)
    }

    /// A duration as it is stored: `H:MM:SS`, the hours with as many digits
    /// as they need.
    pub open spec fn duration_text(self) -> Seq<char> {
        decimal(self.hours as nat) + seq![':'] + two_digits(self.minutes) + seq![':'] + two_digits(
            self.seconds,
        )
    }

    /// A duration without its seconds: `H:MM`.
    pub open spec fn duration_hhmm_text(self) -> Seq<char> {
        decimal(self.hours as nat) + seq![':'] + two_digits(self.minutes)
    }

    /// The text has the form `HH:MM:SS`.
    pub open spec fn is_clock_text(text: Seq<char>) -> bool {
        &&& text.len() == 8
        &&& digits_at(text, 0, 2)
        &&& text[2] == ':'
        &&& digits_at(text, 3, 2)
        &&& text[5] == ':'
        &&& digits_at(text, 6, 2)
    }

    /// The number of seconds that a text of the form `HH:MM:SS` holds,
    /// before any wrapping.
    pub open spec fn clock_text_seconds(text: Seq<char>) -> int {
        3600 * two_digit_value(text, 0) + 60 * two_digit_value(text, 3) + two_digit_value(text, 6)
    }

    /// The text has the form `H:MM:SS`, with one digit or more for the
    /// hours.
    pub open spec fn is_duration_text(text: Seq<char>) -> bool {
        &&& text.len() >= 7
        &&& digits_at(text, 0, text.len() - 6)
        &&& text[text.len() - 6] == ':'
        &&& digits_at(text, text.len() - 5, 2)
        &&& text[text.len() - 3] == ':'
        &&& digits_at(text, text.len() - 2, 2)
    }

    /// The number of seconds that a text of the form `H:MM:SS` holds.
    pub open spec fn duration_text_seconds(text: Seq<char>) -> int {
        3600 * decimal_value(text.subrange(0, text.len() - 6)) + 60 * two_digit_value(
            text,
            text.len() - 5,
        ) + two_digit_value(text, text.len() - 2)
    }

    /// Less by `amount` seconds, and zero where `amount` is more than there
    /// is.
    pub open spec fn less_seconds(self, amount: int) -> Hms {
        if self.total_seconds() < amount {
            Hms::of_seconds(0)
        } else {
            Hms::of_seconds(self.total_seconds() - amount)
        }
    }
}

/// A wrapper for a particular time of day.
///
/// Precise to second-level.
///
/// **NOTE:** This cannot be 24 hours or greater - see `TimeTuple::new()` for more details.
///
/// The wrapping described in `TimeTuple::new()` also applies when adding and subtracting times.
#[derive(PartialEq, Eq, Structural, Debug, Copy, Clone, Ord)]
pub struct TimeTuple {
    h: u8,
    m: u8,
    s: u8,
}

impl View for TimeTuple {
    type V = Hms;

    closed spec fn view(&self) -> Hms {
        Hms { hours: self.h as int, minutes: self.m as int, seconds: self.s as int }
    }
}

impl TimeTuple {
    /// Every `TimeTuple` is a moment within one day.
    #[verifier::type_invariant]
    pub open spec fn is_valid(self) -> bool {
        self@.is_time_of_day()
    }

    /// Two values that stand for the same time are the same value.
    pub proof fn lemma_view_determines(self, other: TimeTuple)
        requires
            self@ == other@,
        ensures
            self == other,
    {
    }

    /// Produces a new TimeTuple.
    ///
    /// Times of 24 hours or greater and negative times
    /// will wrap around 24 hours to always produce a positive time.
    ///
    /// The value is calculated from total number of seconds so a time
    /// with a minute value of 90 would add an hour to the resulting tuple
    /// and set the minutes to 30, for example.
    pub fn new(h: i32, m: i32, s: i32) -> (r: TimeTuple)
        ensures
            r@ == Hms::of_seconds_wrapped(3600 * h + 60 * m + s),
    {
        TimeTuple::from_signed_seconds(s as i64 + 60 * (m as i64) + 3600 * (h as i64))
    }

    /// The time of day that lies `total` seconds after midnight, or before
    /// it where `total` is negative.
    fn from_signed_seconds(total: i64) -> (r: TimeTuple)
        requires
            -8640000000000 <= total <= 8640000000000,
        ensures
            r@ == Hms::of_seconds_wrapped(total as int),
    {
        let shifted: u64 = (total + 8640000000000) as u64;
        assert(shifted as int % 86400 == total as int % 86400) by {
            assert((total + 86400 * 100000000int) % 86400 == total as int % 86400)
                by (nonlinear_arith);
        }
        TimeTuple::from_seconds(shifted)
    }

    /// Same as `TimeTuple::new()` but takes the total number of seconds
    /// as its argument and calculates the hours, minutes, and seconds
    /// from that.
    pub fn from_seconds(total_seconds: u64) -> (r: TimeTuple)
        ensures
            r@ == Hms::of_seconds_wrapped(total_seconds as int),
    {
        let in_day: u64 = total_seconds % 86400;
        proof {
            lemma_of_seconds(in_day as int);
        }
        let h = in_day / 3600;
        let rest = in_day % 3600;
        TimeTuple { h: h as u8, m: (rest / 60) as u8, s: (in_day % 60) as u8 }
    }

    /// Returns a `TimeTuple` of the current time according to the system clock.
    pub fn now() -> (r: TimeTuple) {
        now_as_timetuple()
    }

    pub fn get_hours(self) -> (hours: u8)
        ensures
            hours == self@.hours,
            hours < 24,
    {
        proof {
            use_type_invariant(&self);
        }
        self.h
    }

    pub fn get_minutes(self) -> (minutes: u8)
        ensures
            minutes == self@.minutes,
            minutes < 60,
    {
        proof {
            use_type_invariant(&self);
        }
        self.m
    }

    pub fn get_seconds(self) -> (seconds: u8)
        ensures
            seconds == self@.seconds,
            seconds < 60,
    {
        proof {
            use_type_invariant(&self);
        }
        self.s
    }

    /// Gets the total number of seconds in the tuple.
    pub fn to_seconds(self) -> (total: u32)
        ensures
            total == self@.total_seconds(),
            total < 86400,
    {
        proof {
            use_type_invariant(&self);
        }
        3600 * (self.h as u32) + 60 * (self.m as u32) + self.s as u32
    }

    /// Gets the total number of minutes in the tuple, ignoring seconds.
    pub fn to_minutes(self) -> (total: u32)
        ensures
            total == 60 * self@.hours + self@.minutes,
            total < 1440,
    {
        proof {
            use_type_invariant(&self);
        }
        60 * (self.h as u32) + self.m as u32
    }

    /// Adds a number of seconds to the TimeTuple,
    /// wrapping the same way `TimeTuple::new()` does.
    pub fn add_seconds(&mut self, seconds: i32)
        ensures
            final(self)@ == Hms::of_seconds_wrapped(old(self)@.total_seconds() + seconds),
    {
        *self = TimeTuple::from_signed_seconds(self.to_seconds() as i64 + seconds as i64);
    }

    /// Subtracts a number of seconds from the TimeTuple,
    /// wrapping the same way `TimeTuple::new()` does.
    pub fn subtract_seconds(&mut self, seconds: i32)
        ensures
            final(self)@ == Hms::of_seconds_wrapped(old(self)@.total_seconds() - seconds),
    {
        *self = TimeTuple::from_signed_seconds(self.to_seconds() as i64 - seconds as i64);
    }

    /// Adds a number of minutes to the TimeTuple,
    /// wrapping the same way `TimeTuple::new()` does.
    pub fn add_minutes(&mut self, minutes: i32)
        ensures
            final(self)@ == Hms::of_seconds_wrapped(old(self)@.total_seconds() + 60 * minutes),
    {
        *self = TimeTuple::from_signed_seconds(self.to_seconds() as i64 + 60 * (minutes as i64));
    }

    /// Subtracts a number of minutes from the TimeTuple,
    /// wrapping the same way `TimeTuple::new()` does.
    pub fn subtract_minutes(&mut self, minutes: i32)
        ensures
            final(self)@ == Hms::of_seconds_wrapped(old(self)@.total_seconds() - 60 * minutes),
    {
        *self = TimeTuple::from_signed_seconds(self.to_seconds() as i64 - 60 * (minutes as i64));
    }

    /// Adds a number of hours to the TimeTuple,
    /// wrapping the same way `TimeTuple::new()` does.
    pub fn add_hours(&mut self, hours: i32)
        ensures
            final(self)@ == Hms::of_seconds_wrapped(old(self)@.total_seconds() + 3600 * hours),
    {
        *self = TimeTuple::from_signed_seconds(self.to_seconds() as i64 + 3600 * (hours as i64));
    }

    /// Subtracts a number of hours from the TimeTuple,
    /// wrapping the same way `TimeTuple::new()` does.
    pub fn subtract_hours(&mut self, hours: i32)
        ensures
            final(self)@ == Hms::of_seconds_wrapped(old(self)@.total_seconds() - 3600 * hours),
    {
        *self = TimeTuple::from_signed_seconds(self.to_seconds() as i64 - 3600 * (hours as i64));
    }
}

impl TimeTuple {
    /// Produces a string such as 08:30 for 8 hours and 30 minutes.
    ///
    /// Ignores seconds.
    pub fn to_hhmm_string(self) -> (text: String)
        ensures
            text@ == self@.clock_hhmm_text(),
    {
        proof {
            use_type_invariant(&self);
            reveal_strlit(":");
        }
        let mut out = String::new();
        push_two_digits(&mut out, self.h);
        out.append(":");
        push_two_digits(&mut out, self.m);
        assert(out@ =~= self@.clock_hhmm_text());
        out
    }

    /// Gets a string to use for storage, formatted like 08:30:05. This
    /// string can be read back by `str::parse`.
    pub fn to_string(self) -> (text: String)
        ensures
            text@ == self@.clock_text(),
            Hms::is_clock_text(text@),
            Hms::of_seconds_wrapped(Hms::clock_text_seconds(text@)) == self@,
    {
        proof {
            use_type_invariant(&self);
            reveal_strlit(":");
            lemma_clock_text_round_trip(self@);
        }
        let mut out = String::new();
        push_two_digits(&mut out, self.h);
        out.append(":");
        push_two_digits(&mut out, self.m);
        out.append(":");
        push_two_digits(&mut out, self.s);
        assert(out@ =~= self@.clock_text());
        out
    }

    /// Reads hours, minutes and seconds of a text of the form `HH:MM:SS`.
    fn read_parts(s: &str) -> (r: Option<(u8, u8, u8)>)
        ensures
            r is Some <==> Hms::is_clock_text(s@),
            r matches Some((h, m, sec)) ==> 3600 * h + 60 * m + sec == Hms::clock_text_seconds(
                s@,
            ) && h <= 99 && m <= 99 && sec <= 99,
    {
        match ascii_len(s) {
            Some(8) => {
                match (
                    read_two_digits(s, 0),
                    is_char_at(s, 2, 58),
                    read_two_digits(s, 3),
                    is_char_at(s, 5, 58),
                    read_two_digits(s, 6),
                ) {
                    (Some(h), true, Some(m), true, Some(sec)) => Some((h, m, sec)),
                    _ => None,
                }
            },
            _ => None,
        }
    }
}

impl FromStr for TimeTuple {
    type Err = FormatError;

    /// Expects a string formatted like 08:30:05. Hours of 24 and more,
    /// and minutes and seconds of 60 and more, wrap as in `TimeTuple::new()`.
    fn from_str(s: &str) -> (r: Result<TimeTuple, FormatError>)
        ensures
            match r {
                Ok(time) => Hms::is_clock_text(s@) && time@ == Hms::of_seconds_wrapped(
                    Hms::clock_text_seconds(s@),
                ),
                Err(e) => !Hms::is_clock_text(s@) && e.text@ == s@ && e.example@ == "08:30:05"@,
            },
    {
        match TimeTuple::read_parts(s) {
            Some((h, m, sec)) => Ok(TimeTuple::new(h as i32, m as i32, sec as i32)),
            None => Err(format_error(s, "08:30:05")),
        }
    }
}

impl PartialOrd for TimeTuple {
    fn partial_cmp(&self, other: &TimeTuple) -> (r: Option<Ordering>) {
        let left = self.to_seconds();
        let right = other.to_seconds();
        if left < right {
            Some(Ordering::Less)
        } else if left == right {
            Some(Ordering::Equal)
        } else {
            Some(Ordering::Greater)
        }
    }
}

impl PartialOrdSpecImpl for TimeTuple {
    open spec fn obeys_partial_cmp_spec() -> bool {
        true
    }

    open spec fn partial_cmp_spec(&self, other: &TimeTuple) -> Option<Ordering> {
        if self@.total_seconds() < other@.total_seconds() {
            Some(Ordering::Less)
        } else if self@.total_seconds() == other@.total_seconds() {
            Some(Ordering::Equal)
        } else {
            Some(Ordering::Greater)
        }
    }
}

impl Add for TimeTuple {
    type Output = TimeTuple;

    /// The time of day that lies `other` after `self`, wrapped around 24
    /// hours.
    fn add(self, other: TimeTuple) -> (r: TimeTuple)
        ensures
            r@ == Hms::of_seconds_wrapped(self@.total_seconds() + other@.total_seconds()),
    {
        TimeTuple::from_signed_seconds(self.to_seconds() as i64 + other.to_seconds() as i64)
    }
}

impl AddSpecImpl for TimeTuple {
    open spec fn obeys_add_spec() -> bool {
        true
    }

    open spec fn add_req(self, other: TimeTuple) -> bool {
        true
    }

    closed spec fn add_spec(self, other: TimeTuple) -> TimeTuple {
        let sum = Hms::of_seconds_wrapped(self@.total_seconds() + other@.total_seconds());
        TimeTuple { h: sum.hours as u8, m: sum.minutes as u8, s: sum.seconds as u8 }
    }
}

impl AddAssign for TimeTuple {
    fn add_assign(&mut self, other: TimeTuple)
        ensures
            final(self)@ == Hms::of_seconds_wrapped(
                old(self)@.total_seconds() + other@.total_seconds(),
            ),
    {
        *self = TimeTuple::from_signed_seconds(self.to_seconds() as i64 + other.to_seconds() as i64);
    }
}

impl Sub for TimeTuple {
    type Output = TimeTuple;

    /// The time of day that lies `other` before `self`, wrapped around 24
    /// hours.
    fn sub(self, other: TimeTuple) -> (r: TimeTuple)
        ensures
            r@ == Hms::of_seconds_wrapped(self@.total_seconds() - other@.total_seconds()),
    {
        TimeTuple::from_signed_seconds(self.to_seconds() as i64 - other.to_seconds() as i64)
    }
}

impl SubSpecImpl for TimeTuple {
    open spec fn obeys_sub_spec() -> bool {
        true
    }

    open spec fn sub_req(self, other: TimeTuple) -> bool {
        true
    }

    closed spec fn sub_spec(self, other: TimeTuple) -> TimeTuple {
        let difference = Hms::of_seconds_wrapped(self@.total_seconds() - other@.total_seconds());
        TimeTuple {
            h: difference.hours as u8,
            m: difference.minutes as u8,
            s: difference.seconds as u8,
        }
    }
}

impl SubAssign for TimeTuple {
    fn sub_assign(&mut self, other: TimeTuple)
        ensures
            final(self)@ == Hms::of_seconds_wrapped(
                old(self)@.total_seconds() - other@.total_seconds(),
            ),
    {
        *self = TimeTuple::from_signed_seconds(self.to_seconds() as i64 - other.to_seconds() as i64);
    }
}

/// Why a text in the form of a duration is refused.
#[derive(PartialEq, Eq, Structural, Debug, Copy, Clone)]
pub enum DurationError {
    /// The text stands for more than `u32::MAX` hours, 59 minutes and 59
    /// seconds.
    TooLong,
}

impl DurationError {
    /// The words that describe the error.
    pub open spec fn message(self) -> Seq<char> {
        "Invalid duration: it must not be more than 4294967295:59:59."@
    }

    /// Describes the error in words, with the longest duration accepted.
    pub fn to_string(&self) -> (words: String)
        ensures
            words@ == self.message(),
    {
        let mut out = String::new();
        out.append("Invalid duration: it must not be more than 4294967295:59:59.");
        assert(out@ =~= self.message());
        out
    }
}

/// The words that describe why a text was not read as a duration.
pub open spec fn duration_parse_message(e: ParseError<DurationError>) -> Seq<char> {
    match e {
        ParseError::Format(format) => format.message(),
        ParseError::Invalid(duration) => "Invalid duration passed to from_str: "@
            + duration.message(),
    }
}

impl ParseError<DurationError> {
    /// Describes in words why a text was not read as a duration.
    pub fn to_string(&self) -> (words: String)
        ensures
            words@ == duration_parse_message(*self),
    {
        match self {
            ParseError::Format(format) => format.to_string(),
            ParseError::Invalid(duration) => {
                let mut out = String::new();
                out.append("Invalid duration passed to from_str: ");
                out.append(duration.to_string().as_str());
                assert(out@ =~= duration_parse_message(*self));
                out
            },
        }
    }
}

/// A wrapper for a duration.
///
/// Does not count in days, but can have hours >24 (up to `u32::MAX`)
///
/// Precise to second-level.
///
/// Cannot be negative: taking away more than there is leaves zero.
#[derive(PartialEq, Eq, Structural, Debug, Copy, Clone, Ord)]
pub struct Duration {
    h: u32,
    m: u8,
    s: u8,
}

impl View for Duration {
    type V = Hms;

    closed spec fn view(&self) -> Hms {
        Hms { hours: self.h as int, minutes: self.m as int, seconds: self.s as int }
    }
}

impl Duration {
    /// Every `Duration` has its minutes and seconds below 60.
    #[verifier::type_invariant]
    pub open spec fn is_valid(self) -> bool {
        self@.is_duration()
    }

    /// Two values that stand for the same duration are the same value.
    pub proof fn lemma_view_determines(self, other: Duration)
        requires
            self@ == other@,
        ensures
            self == other,
    {
    }

    /// Produces a new Duration.
    ///
    /// The value is calculated from total number of seconds so a duration
    /// with a minute value of 90 would add an hour to the resulting tuple
    /// and set the minutes to 30, for example.
    ///
    /// The hours that result must fit in 32 bits: the total may not be
    /// more than `MAX_DURATION_SECONDS`.
    pub fn new(h: u32, m: u32, s: u32) -> (r: Duration)
        requires
            3600 * h + 60 * m + s <= MAX_DURATION_SECONDS,
        ensures
            r@ == Hms::of_seconds(3600 * h + 60 * m + s),
    {
        Duration::from_seconds(s as u64 + 60 * (m as u64) + 3600 * (h as u64))
    }

    /// Same as `Duration::new()` but takes the total number of seconds
    /// as its argument and calculates the hours, minutes, and seconds
    /// from that. The total may not be more than `MAX_DURATION_SECONDS`.
    pub fn from_seconds(total_seconds: u64) -> (r: Duration)
        requires
            total_seconds <= MAX_DURATION_SECONDS,
        ensures
            r@ == Hms::of_seconds(total_seconds as int),
    {
        proof {
            lemma_of_seconds(total_seconds as int);
        }
        let h = total_seconds / 3600;
        let rest = total_seconds % 3600;
        Duration { h: h as u32, m: (rest / 60) as u8, s: (total_seconds % 60) as u8 }
    }

    /// Calculates the `Duration` between two `DateTimeTuple`s, whichever
    /// of them is the earlier.
    pub fn between(dt1: DateTimeTuple, dt2: DateTimeTuple) -> (r: Duration)
        ensures
            r@ == Hms::of_seconds(dt1@.seconds_between(dt2@)),
            dt1@ == dt2@ ==> r@ == Hms::of_seconds(0),
    {
        let first: u64 = 86400 * (dt1.get_date().to_days() as u64 - 1)
            + dt1.get_time().to_seconds() as u64;
        let second: u64 = 86400 * (dt2.get_date().to_days() as u64 - 1)
            + dt2.get_time().to_seconds() as u64;
        if first <= second {
            Duration::from_seconds(second - first)
        } else {
            Duration::from_seconds(first - second)
        }
    }

    pub fn get_hours(self) -> (hours: u32)
        ensures
            hours == self@.hours,
    {
        self.h
    }

    pub fn get_minutes(self) -> (minutes: u8)
        ensures
            minutes == self@.minutes,
            minutes < 60,
    {
        proof {
            use_type_invariant(&self);
        }
        self.m
    }

    pub fn get_seconds(self) -> (seconds: u8)
        ensures
            seconds == self@.seconds,
            seconds < 60,
    {
        proof {
            use_type_invariant(&self);
        }
        self.s
    }

    /// Gets the total number of seconds in the Duration.
    pub fn to_seconds(self) -> (total: u64)
        ensures
            total == self@.total_seconds(),
            total <= MAX_DURATION_SECONDS,
    {
        proof {
            use_type_invariant(&self);
        }
        3600 * (self.h as u64) + 60 * (self.m as u64) + self.s as u64
    }

    /// Gets the total number of minutes in the Duration, ignoring seconds.
    /// The minutes must fit in 32 bits.
    pub fn to_minutes(self) -> (total: u32)
        requires
            60 * self@.hours + self@.minutes <= u32::MAX,
        ensures
            total == 60 * self@.hours + self@.minutes,
    {
        60 * self.h + self.m as u32
    }

    /// Adds a number of seconds to the Duration,
    /// carrying into minutes and hours. The sum may not be more than
    /// `MAX_DURATION_SECONDS`.
    pub fn add_seconds(&mut self, seconds: u32)
        requires
            old(self)@.total_seconds() + seconds <= MAX_DURATION_SECONDS,
        ensures
            final(self)@ == Hms::of_seconds(old(self)@.total_seconds() + seconds),
    {
        *self = Duration::from_seconds(self.to_seconds() + seconds as u64);
    }

    /// Subtracts a number of seconds from the Duration; the result is zero
    /// where the Duration is shorter than that.
    pub fn subtract_seconds(&mut self, seconds: u32)
        ensures
            final(self)@ == old(self)@.less_seconds(seconds as int),
    {
        *self = self.shortened(seconds as u64);
    }

    /// Adds a number of minutes to the Duration,
    /// carrying into hours. The sum may not be more than
    /// `MAX_DURATION_SECONDS`.
    pub fn add_minutes(&mut self, minutes: u32)
        requires
            old(self)@.total_seconds() + 60 * minutes <= MAX_DURATION_SECONDS,
        ensures
            final(self)@ == Hms::of_seconds(old(self)@.total_seconds() + 60 * minutes),
    {
        *self = Duration::from_seconds(self.to_seconds() + 60 * (minutes as u64));
    }

    /// Subtracts a number of minutes from the Duration; the result is zero
    /// where the Duration is shorter than that.
    pub fn subtract_minutes(&mut self, minutes: u32)
        ensures
            final(self)@ == old(self)@.less_seconds(60 * minutes),
    {
        *self = self.shortened(60 * (minutes as u64));
    }

    /// Adds a number of hours to the Duration. The sum may not be more
    /// than `MAX_DURATION_SECONDS`.
    pub fn add_hours(&mut self, hours: u32)
        requires
            old(self)@.total_seconds() + 3600 * hours <= MAX_DURATION_SECONDS,
        ensures
            final(self)@ == Hms::of_seconds(old(self)@.total_seconds() + 3600 * hours),
    {
        *self = Duration::from_seconds(self.to_seconds() + 3600 * (hours as u64));
    }

    /// Subtracts a number of hours from the Duration; the result is zero
    /// where the Duration is shorter than that.
    pub fn subtract_hours(&mut self, hours: u32)
        ensures
            final(self)@ == old(self)@.less_seconds(3600 * hours),
    {
        *self = self.shortened(3600 * (hours as u64));
    }

    /// The Duration less `amount` seconds, and zero where it is shorter.
    fn shortened(self, amount: u64) -> (r: Duration)
        ensures
            r@ == self@.less_seconds(amount as int),
    {
        let total = self.to_seconds();
        if total < amount {
            Duration::from_seconds(0)
        } else {
            Duration::from_seconds(total - amount)
        }
    }
}

impl Duration {
    /// Produces a string such as 8:30 for 8 hours and 30 minutes.
    ///
    /// Hours field will expand as necessary; 150:30 is a possible result.
    ///
    /// Ignores seconds.
    pub fn to_hhmm_string(self) -> (text: String)
        ensures
            text@ == self@.duration_hhmm_text(),
    {
        proof {
            use_type_invariant(&self);
            reveal_strlit(":");
        }
        let mut out = String::new();
        push_decimal(&mut out, self.h);
        out.append(":");
        push_two_digits(&mut out, self.m);
        assert(out@ =~= self@.duration_hhmm_text());
        out
    }

    /// The same as `to_hhmm_string()`, under its earlier name.
    pub fn to_hours_and_minutes_string(self) -> (text: String)
        ensures
            text@ == self@.duration_hhmm_text(),
    {
        self.to_hhmm_string()
    }

    /// Gets a string to use for storage, formatted like 8:30:05. This
    /// string can be read back by `str::parse`.
    pub fn to_string(self) -> (text: String)
        ensures
            text@ == self@.duration_text(),
            Hms::is_duration_text(text@),
            Hms::of_seconds(Hms::duration_text_seconds(text@)) == self@,
    {
        proof {
            use_type_invariant(&self);
            reveal_strlit(":");
            lemma_duration_text_round_trip(self@);
        }
        let mut out = String::new();
        push_decimal(&mut out, self.h);
        out.append(":");
        push_two_digits(&mut out, self.m);
        out.append(":");
        push_two_digits(&mut out, self.s);
        assert(out@ =~= self@.duration_text());
        out
    }

    /// Reads the digits before position `end` as a number of hours; a
    /// number above `u32::MAX` is read as `u32::MAX + 1`.
    fn read_hours(s: &str, end: usize) -> (r: Option<u64>)
        requires
            s.is_ascii(),
            end <= s@.len(),
        ensures
            r is Some <==> digits_at(s@, 0, end as int),
            r matches Some(hours) ==> hours == (if decimal_value(s@.subrange(0, end as int))
                > u32::MAX {
                u32::MAX + 1
            } else {
                decimal_value(s@.subrange(0, end as int))
            }),
    {
        let mut hours: u64 = 0;
        let mut i: usize = 0;
        assert(s@.subrange(0, 0) =~= Seq::<char>::empty());
        while i < end
            invariant
                s.is_ascii(),
                i <= end <= s@.len(),
                digits_at(s@, 0, i as int),
                hours == (if decimal_value(s@.subrange(0, i as int)) > u32::MAX {
                    u32::MAX + 1
                } else {
                    decimal_value(s@.subrange(0, i as int))
                }),
            decreases end - i,
        {
            match read_digit(s, i) {
                Some(d) => {
                    proof {
                        let longer = s@.subrange(0, i + 1);
                        assert(longer.drop_last() =~= s@.subrange(0, i as int));
                        assert(longer.last() == s@[i as int]);
                    }
                    hours = 10 * hours + d as u64;
                    if hours > 4294967295 {
                        hours = 4294967296;
                    }
                },
                None => {
                    return None;
                },
            }
            i += 1;
        }
        Some(hours)
    }
}

impl FromStr for Duration {
    type Err = ParseError<DurationError>;

    /// Expects a string formatted like 8:30:05, with any number of digits
    /// for the hours. Minutes and seconds of 60 and more carry as in
    /// `Duration::new()`. A text that stands for more than
    /// `MAX_DURATION_SECONDS` is refused as too long.
    fn from_str(s: &str) -> (r: Result<Duration, ParseError<DurationError>>)
        ensures
            match r {
                Ok(duration) => Hms::is_duration_text(s@) && duration@ == Hms::of_seconds(
                    Hms::duration_text_seconds(s@),
                ),
                Err(ParseError::Format(e)) => !Hms::is_duration_text(s@) && e.text@ == s@
                    && e.example@ == "8:30:05"@,
                Err(ParseError::Invalid(e)) => Hms::is_duration_text(s@)
                    && Hms::duration_text_seconds(s@) > MAX_DURATION_SECONDS,
            },
    {
        let len = match ascii_len(s) {
            Some(len) => len,
            None => {
                return Err(ParseError::Format(format_error(s, "8:30:05")));
            },
        };
        if len < 7 {
            return Err(ParseError::Format(format_error(s, "8:30:05")));
        }
        let end = len - 6;
        match (
            Duration::read_hours(s, end),
            is_char_at(s, end, 58),
            read_two_digits(s, end + 1),
            is_char_at(s, end + 3, 58),
            read_two_digits(s, end + 4),
        ) {
            (Some(h), true, Some(m), true, Some(sec)) => {
                let total: u64 = 3600 * h + 60 * (m as u64) + sec as u64;
                if total > MAX_DURATION_SECONDS {
                    Err(ParseError::Invalid(DurationError::TooLong))
                } else {
                    Ok(Duration::from_seconds(total))
                }
            },
            _ => Err(ParseError::Format(format_error(s, "8:30:05"))),
        }
    }
}

impl PartialOrd for Duration {
    fn partial_cmp(&self, other: &Duration) -> (r: Option<Ordering>) {
        let left = self.to_seconds();
        let right = other.to_seconds();
        if left < right {
            Some(Ordering::Less)
        } else if left == right {
            Some(Ordering::Equal)
        } else {
            Some(Ordering::Greater)
        }
    }
}

impl PartialOrdSpecImpl for Duration {
    open spec fn obeys_partial_cmp_spec() -> bool {
        true
    }

    open spec fn partial_cmp_spec(&self, other: &Duration) -> Option<Ordering> {
        if self@.total_seconds() < other@.total_seconds() {
            Some(Ordering::Less)
        } else if self@.total_seconds() == other@.total_seconds() {
            Some(Ordering::Equal)
        } else {
            Some(Ordering::Greater)
        }
    }
}

impl Add for Duration {
    type Output = Duration;

    /// The two durations one after the other. The sum may not be more
    /// than `MAX_DURATION_SECONDS`.
    fn add(self, other: Duration) -> (r: Duration)
        ensures
            r@ == Hms::of_seconds(self@.total_seconds() + other@.total_seconds()),
    {
        Duration::from_seconds(self.to_seconds() + other.to_seconds())
    }
}

impl AddSpecImpl for Duration {
    open spec fn obeys_add_spec() -> bool {
        true
    }

    open spec fn add_req(self, other: Duration) -> bool {
        self@.total_seconds() + other@.total_seconds() <= MAX_DURATION_SECONDS
    }

    closed spec fn add_spec(self, other: Duration) -> Duration {
        let sum = Hms::of_seconds(self@.total_seconds() + other@.total_seconds());
        Duration { h: sum.hours as u32, m: sum.minutes as u8, s: sum.seconds as u8 }
    }
}

impl AddAssign for Duration {
    /// Makes `self` longer by `other`. The sum may not be more than
    /// `MAX_DURATION_SECONDS`.
    fn add_assign(&mut self, other: Duration)
        requires
            old(self)@.total_seconds() + other@.total_seconds() <= MAX_DURATION_SECONDS,
        ensures
            final(self)@ == Hms::of_seconds(old(self)@.total_seconds() + other@.total_seconds()),
    {
        *self = Duration::from_seconds(self.to_seconds() + other.to_seconds());
    }
}

impl Sub for Duration {
    type Output = Duration;

    /// What is left of `self` after `other`, and zero where `other` is the
    /// longer.
    fn sub(self, other: Duration) -> (r: Duration)
        ensures
            r@ == self@.less_seconds(other@.total_seconds()),
    {
        self.shortened(other.to_seconds())
    }
}

impl SubSpecImpl for Duration {
    open spec fn obeys_sub_spec() -> bool {
        true
    }

    open spec fn sub_req(self, other: Duration) -> bool {
        true
    }

    closed spec fn sub_spec(self, other: Duration) -> Duration {
        let left = self@.less_seconds(other@.total_seconds());
        Duration { h: left.hours as u32, m: left.minutes as u8, s: left.seconds as u8 }
    }
}

impl SubAssign for Duration {
    fn sub_assign(&mut self, other: Duration)
        ensures
            final(self)@ == old(self)@.less_seconds(other@.total_seconds()),
    {
        *self = self.shortened(other.to_seconds());
    }
}

impl From<TimeTuple> for Duration {
    /// The time that has passed since midnight at a time of day.
    fn from(time: TimeTuple) -> (r: Duration)
        ensures
            r@ == time@,
    {
        proof {
            use_type_invariant(&time);
            lemma_total_seconds(time@);
        }
        Duration::from_seconds(time.to_seconds() as u64)
    }
}

impl FromSpecImpl<TimeTuple> for Duration {
    open spec fn obeys_from_spec() -> bool {
        true
    }

    closed spec fn from_spec(time: TimeTuple) -> Duration {
        Duration { h: time@.hours as u32, m: time@.minutes as u8, s: time@.seconds as u8 }
    }
}

/// Splitting a number of seconds and putting the parts together again
/// gives the number back; the minutes and seconds are below 60.
pub proof fn lemma_of_seconds(total: int)
    requires
        0 <= total,
    ensures
        Hms::of_seconds(total).total_seconds() == total,
        0 <= Hms::of_seconds(total).hours,
        0 <= Hms::of_seconds(total).minutes < 60,
        0 <= Hms::of_seconds(total).seconds < 60,
        total < 86400 ==> Hms::of_seconds(total).is_time_of_day(),
        total <= MAX_DURATION_SECONDS ==> Hms::of_seconds(total).is_duration(),
{
    let h = total / 3600;
    let r = total % 3600;
    assert(total == 3600 * h + r);
    assert(r == 60 * (r / 60) + r % 60);
    assert(total % 60 == r % 60) by {
        assert(total == 60 * (60 * h + r / 60) + r % 60);
    }
}

/// Hours, minutes below 60 and seconds below 60 are the split of their
/// total.
pub proof fn lemma_total_seconds(parts: Hms)
    requires
        0 <= parts.hours,
        0 <= parts.minutes < 60,
        0 <= parts.seconds < 60,
    ensures
        Hms::of_seconds(parts.total_seconds()) == parts,
{
    let total = parts.total_seconds();
    let low = 60 * parts.minutes + parts.seconds;
    assert(total == 3600 * parts.hours + low);
    assert(total / 3600 == parts.hours && total % 3600 == low) by (nonlinear_arith)
        requires
            total == 3600 * parts.hours + low,
            0 <= low < 3600,
    ;
    assert(low / 60 == parts.minutes && low % 60 == parts.seconds) by (nonlinear_arith)
        requires
            low == 60 * parts.minutes + parts.seconds,
            0 <= parts.seconds < 60,
    ;
    assert(total % 60 == parts.seconds) by (nonlinear_arith)
        requires
            total == 60 * (60 * parts.hours + parts.minutes) + parts.seconds,
            0 <= parts.seconds < 60,
    ;
}

/// Whole days more or less do not change the time of day that a number of
/// seconds wraps to, and what it wraps to is a time of day.
pub proof fn lemma_of_seconds_wrapped(total: int, days: int)
    ensures
        Hms::of_seconds_wrapped(total).is_time_of_day(),
        Hms::of_seconds_wrapped(total).total_seconds() == total % 86400,
        Hms::of_seconds_wrapped(total + 86400 * days) == Hms::of_seconds_wrapped(total),
{
    lemma_of_seconds(total % 86400);
    assert((total + 86400 * days) % 86400 == total % 86400) by (nonlinear_arith);
}

/// Two times of day, or two durations, of the same number of seconds are
/// the same.
pub proof fn lemma_total_seconds_determines(a: Hms, b: Hms)
    requires
        a.is_time_of_day() || a.is_duration(),
        b.is_time_of_day() || b.is_duration(),
        a.total_seconds() == b.total_seconds(),
    ensures
        a == b,
{
    lemma_total_seconds(a);
    lemma_total_seconds(b);
}

/// A time of day written as it is stored is read back as itself.
pub proof fn lemma_clock_text_round_trip(time: Hms)
    requires
        time.is_time_of_day(),
    ensures
        Hms::is_clock_text(time.clock_text()),
        Hms::of_seconds_wrapped(Hms::clock_text_seconds(time.clock_text())) == time,
{
    let text = time.clock_text();
    assert(text.subrange(0, 2) =~= two_digits(time.hours));
    assert(text.subrange(3, 5) =~= two_digits(time.minutes));
    assert(text.subrange(6, 8) =~= two_digits(time.seconds));
    lemma_two_digits_at(text, 0, time.hours);
    lemma_two_digits_at(text, 3, time.minutes);
    lemma_two_digits_at(text, 6, time.seconds);
    lemma_total_seconds(time);
}

/// A duration written as it is stored is read back as itself.
pub proof fn lemma_duration_text_round_trip(duration: Hms)
    requires
        duration.is_duration(),
    ensures
        Hms::is_duration_text(duration.duration_text()),
        Hms::of_seconds(Hms::duration_text_seconds(duration.duration_text())) == duration,
{
    let text = duration.duration_text();
    let hours = decimal(duration.hours as nat);
    let k = hours.len() as int;
    lemma_decimal_value(duration.hours as nat);
    assert(text.len() == k + 6);
    assert(text.subrange(0, k) =~= hours);
    assert(text.subrange(k + 1, k + 3) =~= two_digits(duration.minutes));
    assert(text.subrange(k + 4, k + 6) =~= two_digits(duration.seconds));
    lemma_two_digits_at(text, k + 1, duration.minutes);
    lemma_two_digits_at(text, k + 4, duration.seconds);
    assert(digits_at(text, 0, k)) by {
        assert forall|i: int| 0 <= i < k implies is_digit(#[trigger] text[i]) by {
            assert(text[i] == hours[i]);
        }
    }
    lemma_total_seconds(duration);
}

} // verus!
