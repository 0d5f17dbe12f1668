//! A date together with a time of day.

use crate::date_tuple::{
    date_error, lemma_date_text_round_trip, lemma_day_number_bounds, lemma_day_number_increases,
    DateError, DateTuple, Ymd,
};
use crate::date_utils::MAX_DAYS;
use crate::text::{ascii_len, format_error, is_char_at, ParseError};
use crate::time_tuple::{lemma_clock_text_round_trip, lemma_total_seconds, Hms, TimeTuple};
use std::cmp::Ordering;
use std::str::FromStr;
use vstd::prelude::*;
use vstd::std_specs::cmp::PartialOrdSpecImpl;
use vstd::string::*;

verus! {

pub type DateTime = DateTimeTuple;

/// A calendar day and a time of day: what a `DateTimeTuple` stands for in
/// contracts.
pub struct YmdHms {
    pub date: Ymd,
    pub time: Hms,
}

impl YmdHms {
    /// A day of the calendar and a moment within it.
    pub open spec fn is_valid(self) -> bool {
        self.date.is_valid() && self.time.is_time_of_day()
    }

    /// Seconds from the start of 1 Jan 0000 to this moment.
    pub open spec fn instant(self) -> int {
        86400 * (self.date.day_number() - 1) + self.time.total_seconds()
    }

    /// The date and time as they are stored: `YYYY-MM-DD@HH:MM:SS`.
    pub open spec fn canonical_text(self) -> Seq<char> {
        self.date.canonical_text() + seq!['@'] + self.time.clock_text()
    }

    /// The date and time as they are shown to a reader:
    /// `D Mon YYYY HH:MM:SS`.
    pub open spec fn readable_text(self) -> Seq<char> {
        self.date.readable_text() + seq![' '] + self.time.clock_text()
    }

    /// The text is a date in one of its two forms, `@`, and a time of day.
    pub open spec fn is_text(text: Seq<char>) -> bool {
        &&& text.len() == 19 || text.len() == 17
        &&& text[text.len() - 9] == '@'
        &&& Ymd::of_text(text.subrange(0, text.len() - 9)) is Some
        &&& Hms::is_clock_text(text.subrange(text.len() - 8, text.len() as int))
    }

    /// The date and the time that a text in that form holds, whether or
    /// not the date is one of the calendar; the time is wrapped around 24
    /// hours.
    pub open spec fn of_text(text: Seq<char>) -> Option<YmdHms> {
        if YmdHms::is_text(text) {
            Some(
                YmdHms {
                    date: Ymd::of_text(text.subrange(0, text.len() - 9))->0,
                    time: Hms::of_seconds_wrapped(
                        Hms::clock_text_seconds(
                            text.subrange(text.len() - 8, text.len() as int),
                        ),
                    ),
                },
            )
        } else {
            None
        }
    }

    /// Seconds from the earlier of two moments to the later.
    pub open spec fn seconds_between(self, other: YmdHms) -> int {
        if self.instant() <= other.instant() {
            other.instant() - self.instant()
        } else {
            self.instant() - other.instant()
        }
    }

    /// Order by date, then by time of day.
    pub open spec fn is_before(self, other: YmdHms) -> bool {
        self.date.is_before(other.date) || (self.date == other.date && self.time.total_seconds()
            < other.time.total_seconds())
    }
}

/// Wrapper for a specific date and time.
///
/// Comprised of a DateTuple and a TimeTuple.
#[derive(PartialEq, Eq, Structural, Debug, Copy, Clone, Ord)]
pub struct DateTimeTuple {
    d: DateTuple,
    t: TimeTuple,
}

impl View for DateTimeTuple {
    type V = YmdHms;

    closed spec fn view(&self) -> YmdHms {
        YmdHms { date: self.d@, time: self.t@ }
    }
}

impl DateTimeTuple {
    /// Every `DateTimeTuple` holds a day of the calendar and a moment
    /// within it.
    #[verifier::type_invariant]
    pub open spec fn is_valid(self) -> bool {
        self@.is_valid()
    }

    /// Two values that stand for the same date and time are the same value.
    pub proof fn lemma_view_determines(self, other: DateTimeTuple)
        requires
            self@ == other@,
        ensures
            self == other,
    {
        self.d.lemma_view_determines(other.d);
        self.t.lemma_view_determines(other.t);
    }

    pub fn new(d: DateTuple, t: TimeTuple) -> (r: DateTimeTuple)
        ensures
            r@ == (YmdHms { date: d@, time: t@ }),
    {
        proof {
            use_type_invariant(&d);
            use_type_invariant(&t);
        }
        DateTimeTuple { d, t }
    }

    pub fn get_date(self) -> (date: DateTuple)
        ensures
            date@ == self@.date,
    {
        self.d
    }

    pub fn get_time(self) -> (time: TimeTuple)
        ensures
            time@ == self@.time,
    {
        self.t
    }
}

impl DateTimeTuple {
    /// Produces a readable date and time.
    ///
    /// ## Examples
    /// * 2 Oct 2018 08:30:00
    /// * 13 Jan 2019 11:00:10
    pub fn to_readable_string(self) -> (text: String)
        ensures
            text@ == self@.readable_text(),
    {
        proof {
            reveal_strlit(" ");
        }
        let mut out = self.d.to_readable_string();
        out.append(" ");
        out.append(self.t.to_string().as_str());
        out
    }

    /// Gets a string to use for storage, formatted like
    /// 2018-10-02@08:30:00. This string can be read back by `str::parse`.
    pub fn to_string(self) -> (text: String)
        ensures
            text@ == self@.canonical_text(),
            YmdHms::of_text(text@) == Some(self@),
    {
        proof {
            use_type_invariant(&self);
            reveal_strlit("@");
            lemma_date_time_text_round_trip(self@);
        }
        let mut out = self.d.to_string();
        out.append("@");
        out.append(self.t.to_string().as_str());
        out
    }
}

impl FromStr for DateTimeTuple {
    type Err = ParseError<DateError>;

    /// Expects a string formatted like one obtained by calling
    /// `DateTimeTuple::to_string()`; the date may be in its older form.
    fn from_str(s: &str) -> (r: Result<DateTimeTuple, ParseError<DateError>>)
        ensures
            r is Ok <==> YmdHms::of_text(s@) is Some && YmdHms::of_text(s@)->0.is_valid(),
            match r {
                Ok(both) => YmdHms::of_text(s@) == Some(both@),
                Err(ParseError::Format(e)) => YmdHms::of_text(s@) is None && e.text@ == s@
                    && e.example@ == "2018-11-02@08:30:00"@,
                Err(ParseError::Invalid(e)) => YmdHms::of_text(s@) is Some && date_error(
                    YmdHms::of_text(s@)->0.date.year as u16,
                    YmdHms::of_text(s@)->0.date.month as u8,
                    YmdHms::of_text(s@)->0.date.day as u8,
                ) == Some(e),
            },
    {
        let len = match ascii_len(s) {
            Some(len) => len,
            None => {
                proof {
                    if YmdHms::is_text(s@) {
                        lemma_text_is_ascii(s@);
                    }
                }
                return Err(ParseError::Format(format_error(s, "2018-11-02@08:30:00")));
            },
        };
        if len != 19 && len != 17 {
            return Err(ParseError::Format(format_error(s, "2018-11-02@08:30:00")));
        }
        if !is_char_at(s, len - 9, 64) {
            return Err(ParseError::Format(format_error(s, "2018-11-02@08:30:00")));
        }
        let time = match TimeTuple::from_str(s.substring_ascii(len - 8, len)) {
            Ok(time) => time,
            Err(_) => {
                return Err(ParseError::Format(format_error(s, "2018-11-02@08:30:00")));
            },
        };
        match DateTuple::from_str(s.substring_ascii(0, len - 9)) {
            Ok(date) => Ok(DateTimeTuple::new(date, time)),
            Err(ParseError::Invalid(e)) => Err(ParseError::Invalid(e)),
            Err(ParseError::Format(_)) => Err(ParseError::Format(format_error(s, "2018-11-02@08:30:00"))),
        }
    }
}

impl PartialOrd for DateTimeTuple {
    fn partial_cmp(&self, other: &DateTimeTuple) -> (r: Option<Ordering>) {
        proof {
            if self.d@ == other.d@ {
                self.d.lemma_view_determines(other.d);
            }
        }
        if self.d == other.d {
            self.t.partial_cmp(&other.t)
        } else {
            self.d.partial_cmp(&other.d)
        }
    }
}

impl PartialOrdSpecImpl for DateTimeTuple {
    open spec fn obeys_partial_cmp_spec() -> bool {
        true
    }

    open spec fn partial_cmp_spec(&self, other: &DateTimeTuple) -> Option<Ordering> {
        if self@.is_before(other@) {
            Some(Ordering::Less)
        } else if other@.is_before(self@) {
            Some(Ordering::Greater)
        } else {
            Some(Ordering::Equal)
        }
    }
}

/// A text in the form of a date and time holds ASCII characters only.
proof fn lemma_text_is_ascii(text: Seq<char>)
    requires
        YmdHms::is_text(text),
    ensures
        vstd::utf8::is_ascii_chars(text),
{
    let split = text.len() - 9;
    let date = text.subrange(0, split);
    let time = text.subrange(split + 1, text.len() as int);
    assert forall|i: int| 0 <= i < text.len() implies '\0' <= #[trigger] text[i] <= '\u{7f}' by {
        if i < split {
            assert(text[i] == date[i]);
        } else if i > split {
            assert(text[i] == time[i - split - 1]);
        }
    }
}

/// A date and time written as they are stored are read back as
/// themselves.
pub proof fn lemma_date_time_text_round_trip(both: YmdHms)
    requires
        both.is_valid(),
    ensures
        YmdHms::of_text(both.canonical_text()) == Some(both),
{
    let text = both.canonical_text();
    lemma_date_text_round_trip(both.date);
    lemma_clock_text_round_trip(both.time);
    assert(text.len() == 19);
    assert(text.subrange(0, 10) =~= both.date.canonical_text());
    assert(text.subrange(11, 19) =~= both.time.clock_text());
}

/// Of two dates and times, the one that is ordered first (by date, then by
/// time of day) is the one that fewer seconds lead to.
pub proof fn lemma_is_before_by_instant(a: YmdHms, b: YmdHms)
    requires
        a.is_valid(),
        b.is_valid(),
    ensures
        a.is_before(b) <==> a.instant() < b.instant(),
        a == b <==> a.instant() == b.instant(),
{
    if a.date.is_before(b.date) {
        lemma_day_number_increases(a.date, b.date);
    } else if b.date.is_before(a.date) {
        lemma_day_number_increases(b.date, a.date);
    } else {
        assert(a.date == b.date);
        if a.time.total_seconds() == b.time.total_seconds() {
            lemma_total_seconds(a.time);
            lemma_total_seconds(b.time);
        }
    }
}

/// The seconds between two dates and times do not depend on which comes
/// first, are none for a moment and itself, and fit in a `Duration`. From
/// an earlier moment to a later one on the same day they are the later
/// time less the earlier; over `n` days and more, they are the later time
/// and 24 hours, less the earlier time, and 24 hours for each of the other
/// `n - 1` days.
pub proof fn lemma_seconds_between(a: YmdHms, b: YmdHms)
    requires
        a.is_valid(),
        b.is_valid(),
    ensures
        a.seconds_between(b) == b.seconds_between(a),
        a.seconds_between(a) == 0,
        0 <= a.seconds_between(b) < 86400 * MAX_DAYS,
        a.seconds_between(b) == 0 <==> a == b,
        a.is_before(b) ==> a.seconds_between(b) == (if a.date == b.date {
            b.time.total_seconds() - a.time.total_seconds()
        } else {
            (b.time.total_seconds() + 86400) - a.time.total_seconds() + 86400 * (
            b.date.day_number() - a.date.day_number() - 1)
        }),
{
    lemma_is_before_by_instant(a, b);
    lemma_day_number_bounds(a.date);
    lemma_day_number_bounds(b.date);
}

} // verus!
