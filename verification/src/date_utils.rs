//! Calendar rules of the proleptic Gregorian calendar: leap years, month
//! lengths and day counting, together with the readings of the system clock.

use crate::date_tuple::{lemma_day_number_bounds, lemma_of_day_number, DateTuple, Ymd};
use crate::month_tuple::MonthTuple;
use crate::time_tuple::{Hms, TimeTuple};
use std::time::{SystemTime, SystemTimeError, UNIX_EPOCH};
use vstd::prelude::*;

verus! {

/// Largest year that the calendar types hold.
pub const MAX_YEAR: u16 = 9999;

/// Number of days from 1 Jan 0000 to 31 Dec 9999, both included.
pub const MAX_DAYS: u32 = 3652425;

/// Number of seconds in a day.
pub const SECONDS_IN_A_DAY: u64 = 86400;

/// The day count of 1 Jan 1970, the day that the system clock counts from.
pub const UNIX_EPOCH_DAYS: u32 = 719529;

/// The Gregorian rule: every fourth year is a leap year, except the
/// centuries that are not a multiple of 400.
pub open spec fn leap_year(year: int) -> bool {
    year % 4 == 0 && (year % 100 != 0 || year % 400 == 0)
}

/// Number of days in `month` of `year`, for the months 1 (January) to 12.
pub open spec fn days_in_month(month: int, year: int) -> int {
    if month == 2 {
        if leap_year(year) {
            29
        } else {
            28
        }
    } else if month == 1 || month == 3 || month == 5 || month == 7 || month == 8 || month == 10
        || month == 12 {
        31
    } else {
        30
    }
}

/// Number of days in `year`.
pub open spec fn days_in_year(year: int) -> int {
    if leap_year(year) {
        366
    } else {
        365
    }
}

/// Number of days in the years `0` to `year - 1`.
pub open spec fn days_before_year(year: int) -> int
    decreases year,
{
    if year <= 0 {
        0
    } else {
        days_before_year(year - 1) + days_in_year(year - 1)
    }
}

/// Number of days in the months `1` to `month - 1` of `year`.
pub open spec fn days_before_month(month: int, year: int) -> int
    decreases month,
{
    if month <= 1 {
        0
    } else {
        days_before_month(month - 1, year) + days_in_month(month - 1, year)
    }
}

/// The day count of a calendar day: 1 for 1 Jan 0000, and one more for
/// each day after it.
pub open spec fn day_number(year: int, month: int, day: int) -> int {
    days_before_year(year) + days_before_month(month, year) + day
}

/// Takes a year and returns whether it is a leap year.
pub fn is_leap_year(year: u16) -> (leap: bool)
    ensures
        leap == leap_year(year as int),
{
    year % 4 == 0 && (year % 100 != 0 || year % 400 == 0)
}

/// Produces the number of the last day in `month` of `year`.
pub fn get_last_date_in_month(month: u8, year: u16) -> (last: u8)
    ensures
        last == days_in_month(month as int, year as int),
        28 <= last <= 31,
{
    match month {
        2 => {
            if is_leap_year(year) {
                29
            } else {
                28
            }
        },
        1 | 3 | 5 | 7 | 8 | 10 | 12 => 31,
        _ => 30,
    }
}

/// A year that ends a century is a leap year only where the century is a
/// multiple of four; any other year is one where it is a multiple of four.
pub proof fn lemma_leap_year_centuries(year: int)
    requires
        0 <= year,
    ensures
        year % 100 == 0 ==> (leap_year(year) <==> (year / 100) % 4 == 0),
        year % 100 != 0 ==> (leap_year(year) <==> year % 4 == 0),
{
    if year % 100 == 0 {
        let century = year / 100;
        assert(year == 100 * century);
        assert(year % 4 == 0) by {
            assert(year == 4 * (25 * century));
        }
        if century % 4 == 0 {
            assert(year == 400 * (century / 4));
        }
        if year % 400 == 0 {
            assert(century == 4 * (year / 400));
        }
    }
}

/// Stepping from `n` to `n + 1` adds a multiple of `k` to those below
/// exactly when `n` is one.
proof fn lemma_multiples_below(n: int, k: int)
    requires
        0 <= n,
        0 < k,
    ensures
        (n + k) / k - (n + k - 1) / k == (if n % k == 0 {
            1int
        } else {
            0
        }),
{
    let q = n / k;
    let r = n % k;
    assert(n == k * q + r && 0 <= r < k) by (nonlinear_arith)
        requires
            q == n / k,
            r == n % k,
            0 < k,
    ;
    assert((k * (q + 1) + r) / k == q + 1) by (nonlinear_arith)
        requires
            0 <= r < k,
    ;
    assert(n + k == k * (q + 1) + r) by (nonlinear_arith)
        requires
            n == k * q + r,
    ;
    if r == 0 {
        assert((k * q + (k - 1)) / k == q) by (nonlinear_arith)
            requires
                0 < k,
        ;
        assert(n + k - 1 == k * q + (k - 1));
    } else {
        assert((k * (q + 1) + (r - 1)) / k == q + 1) by (nonlinear_arith)
            requires
                0 < r < k,
        ;
        assert(n + k - 1 == k * (q + 1) + (r - 1));
    }
}

/// The days before a year in closed form: 365 for each year, and one more
/// for each leap year among them.
pub proof fn lemma_days_before_year(year: int)
    requires
        0 <= year,
    ensures
        days_before_year(year) == 365 * year + (year + 3) / 4 - (year + 99) / 100 + (year + 399)
            / 400,
    decreases year,
{
    if year > 0 {
        let y = year - 1;
        lemma_days_before_year(y);
        lemma_multiples_below(y, 4);
        lemma_multiples_below(y, 100);
        lemma_multiples_below(y, 400);
        let fourth: int = if y % 4 == 0 {
            1
        } else {
            0
        };
        let hundredth: int = if y % 100 == 0 {
            1
        } else {
            0
        };
        let four_hundredth: int = if y % 400 == 0 {
            1
        } else {
            0
        };
        assert(y % 100 == 0 ==> y % 4 == 0) by {
            if y % 100 == 0 {
                assert(y == 4 * (25 * (y / 100)));
            }
        }
        assert(y % 400 == 0 ==> y % 100 == 0) by {
            if y % 400 == 0 {
                assert(y == 100 * (4 * (y / 400)));
            }
        }
        assert(days_in_year(y) == 365 + fourth - hundredth + four_hundredth);
        assert((year + 3) / 4 == (y + 3) / 4 + fourth);
        assert((year + 99) / 100 == (y + 99) / 100 + hundredth);
        assert((year + 399) / 400 == (y + 399) / 400 + four_hundredth);
        assert(days_before_year(year) == days_before_year(y) + days_in_year(y));
    }
}

/// Later years have more days before them.
pub proof fn lemma_days_before_year_increases(earlier: int, later: int)
    requires
        0 <= earlier <= later,
    ensures
        days_before_year(earlier) + 365 * (later - earlier) <= days_before_year(later),
    decreases later - earlier,
{
    if earlier < later {
        lemma_days_before_year_increases(earlier, later - 1);
    }
}

/// The days before each month, month by month.
pub proof fn lemma_days_before_month(month: int, year: int)
    requires
        1 <= month <= 13,
    ensures
        days_before_month(month, year) == (if month == 1 {
            0int
        } else if month == 2 {
            31
        } else {
            (if leap_year(year) {
                1int
            } else {
                0
            }) + (if month == 3 {
                59int
            } else if month == 4 {
                90
            } else if month == 5 {
                120
            } else if month == 6 {
                151
            } else if month == 7 {
                181
            } else if month == 8 {
                212
            } else if month == 9 {
                243
            } else if month == 10 {
                273
            } else if month == 11 {
                304
            } else if month == 12 {
                334
            } else {
                365
            })
        }),
    decreases month,
{
    if month > 1 {
        lemma_days_before_month(month - 1, year);
    }
}

/// A reading of the system clock, `std::time::SystemTime`: nothing is
/// known of what it holds.
#[verifier::external_type_specification]
#[verifier::external_body]
pub struct ExSystemTime(std::time::SystemTime);

/// The error of `SystemTime::duration_since`, `std::time::SystemTimeError`:
/// nothing is known of what it holds.
#[verifier::external_type_specification]
#[verifier::external_body]
pub struct ExSystemTimeError(std::time::SystemTimeError);

/// Reads the system clock with `SystemTime::now`. Nothing is claimed of
/// the reading.
#[verifier::external_body]
fn system_now() -> (now: SystemTime) {
    SystemTime::now()
}

/// Asks `SystemTime::duration_since` for the time from `UNIX_EPOCH` to
/// `now`. Nothing is claimed of the answer; it is an error where the clock
/// stands before 1970.
#[verifier::external_body]
fn since_unix_epoch(now: &SystemTime) -> (elapsed: Result<std::time::Duration, SystemTimeError>) {
    now.duration_since(UNIX_EPOCH)
}

/// Makes the empty `std::time::Duration` with `Duration::new(0, 0)`, which
/// does not panic on these arguments. Nothing is claimed of the value.
#[verifier::external_body]
fn no_time() -> (elapsed: std::time::Duration) {
    std::time::Duration::new(0, 0)
}

/// Asks `Duration::as_secs` for the whole seconds in `elapsed`. Nothing is
/// claimed of the number.
#[verifier::external_body]
fn whole_seconds(elapsed: &std::time::Duration) -> (seconds: u64) {
    elapsed.as_secs()
}

/// What a reading of the clock counts as: the time that it holds, and
/// `otherwise` where the clock could not be read.
pub fn elapsed_or(
    reading: Result<std::time::Duration, SystemTimeError>,
    otherwise: std::time::Duration,
) -> (elapsed: std::time::Duration)
    ensures
        elapsed == (match reading {
            Ok(time) => time,
            Err(_) => otherwise,
        }),
{
    match reading {
        Ok(time) => time,
        Err(_) => otherwise,
    }
}

/// Gets the time that has passed since the start of 1970 according to the
/// system clock. A clock that cannot be read, one that stands before 1970,
/// counts as no time passed: what `elapsed_or` gives for the reading.
pub fn duration_since_unix_epoch() -> (elapsed: std::time::Duration) {
    let now = system_now();
    elapsed_or(since_unix_epoch(&now), no_time())
}

/// Takes a duration in seconds and calculates the number of whole days in
/// it, as far as 32 bits hold them: of a larger number of days, the low 32
/// bits.
pub fn extract_days_from_duration(seconds: u64) -> (days: u32)
    ensures
        days == (seconds / 86400) % 0x1_0000_0000,
{
    ((seconds / SECONDS_IN_A_DAY) % 0x1_0000_0000) as u32
}

/// The date that lies `seconds` seconds after the start of 1970; where
/// that is beyond 31 Dec 9999, that day.
pub fn date_after_unix_epoch(seconds: u64) -> (date: DateTuple)
    ensures
        date@ == Ymd::of_day_number(
            if UNIX_EPOCH_DAYS + seconds / 86400 > MAX_DAYS {
                MAX_DAYS as int
            } else {
                UNIX_EPOCH_DAYS + seconds / 86400
            },
        ),
{
    let days: u64 = seconds / SECONDS_IN_A_DAY;
    let day_count: u32 = if days > (MAX_DAYS - UNIX_EPOCH_DAYS) as u64 {
        MAX_DAYS
    } else {
        extract_days_from_duration(seconds) + UNIX_EPOCH_DAYS
    };
    match DateTuple::from_days(day_count) {
        Ok(date) => date,
        Err(_) => DateTuple::max_value(),
    }
}

/// The time of day that it is `seconds` seconds after the start of 1970.
pub fn time_after_unix_epoch(seconds: u64) -> (time: TimeTuple)
    ensures
        time@ == Hms::of_seconds_wrapped(seconds as int),
{
    TimeTuple::from_seconds(seconds)
}

/// Gets the current date as a `DateTuple`, from the system clock; 31 Dec
/// 9999 where the clock is beyond it. Whatever the clock says, the date is
/// not before 1 Jan 1970.
pub fn now_as_datetuple() -> (date: DateTuple)
    ensures
        UNIX_EPOCH_DAYS <= date@.day_number() <= MAX_DAYS,
{
    let elapsed = duration_since_unix_epoch();
    let seconds = whole_seconds(&elapsed);
    proof {
        lemma_of_day_number(
            if UNIX_EPOCH_DAYS + seconds / 86400 > MAX_DAYS {
                MAX_DAYS as int
            } else {
                UNIX_EPOCH_DAYS + seconds / 86400
            },
        );
    }
    date_after_unix_epoch(seconds)
}

/// Gets the current month as a `MonthTuple`, from the system clock.
/// Whatever the clock says, the month is not before Jan 1970.
pub fn now_as_monthtuple() -> (month: MonthTuple)
    ensures
        1970 <= month@.year,
{
    let date = now_as_datetuple();
    proof {
        use_type_invariant(&date);
        lemma_day_number_bounds(date@);
        lemma_days_before_year(1970);
        if date@.year < 1970 {
            lemma_days_before_year_increases(date@.year + 1, 1970);
        }
    }
    MonthTuple::from(date)
}

/// Gets the current time of day as a `TimeTuple`, from the system clock:
/// what `time_after_unix_epoch` gives for the whole seconds that the clock
/// has counted.
pub fn now_as_timetuple() -> (time: TimeTuple) {
    let elapsed = duration_since_unix_epoch();
    time_after_unix_epoch(whole_seconds(&elapsed))
}

} // verus!
