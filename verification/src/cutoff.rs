//! The retention window: how far back a run reaches.
//!
//! A run takes in messages from the first instant of the month before the
//! current one. The cutoff is computed once and holds for the whole run.

use vstd::prelude::*;

verus! {

/// The first and the last year for which a calendar date can be made.
pub const MIN_YEAR: i32 = -262143;

pub const MAX_YEAR: i32 = 262142;

/// Leap years of the proleptic Gregorian calendar.
pub open spec fn is_leap_year(year: int) -> bool {
    year % 4 == 0 && (year % 100 != 0 || year % 400 == 0)
}

/// The number of days of a month.
pub open spec fn days_in_month(year: int, month: int) -> int {
    if month == 2 {
        if is_leap_year(year) {
            29
        } else {
            28
        }
    } else if month == 4 || month == 6 || month == 9 || month == 11 {
        30
    } else {
        31
    }
}

/// The days of `year` that lie before the first of `month`.
pub open spec fn days_before_month(year: int, month: int) -> int
    decreases month,
{
    if month <= 1 {
        0
    } else {
        days_before_month(year, month - 1) + days_in_month(year, month - 1)
    }
}

/// The number of leap years from year 1 through `year`.
pub open spec fn leap_years_through(year: int) -> int {
    year / 4 - year / 100 + year / 400
}

/// The days from 1 January 1970 to 1 January of `year`; negative before 1970.
pub open spec fn days_before_year(year: int) -> int {
    365 * (year - 1970) + leap_years_through(year - 1) - leap_years_through(1969)
}

/// Seconds from the epoch to UTC midnight of the first day of a month.
pub open spec fn month_start(year: int, month: int) -> int {
    86400 * (days_before_year(year) + days_before_month(year, month))
}

/// Whether a calendar month exists within the supported years.
pub open spec fn valid_month(year: int, month: int) -> bool {
    MIN_YEAR <= year <= MAX_YEAR && 1 <= month <= 12
}

/// The calendar month before the given one.
pub open spec fn previous_month(year: int, month: int) -> (int, int) {
    if month == 1 {
        (year - 1, 12)
    } else {
        (year, month - 1)
    }
}

/// The cutoff of a run that starts in the given month: UTC midnight of the
/// first day of the month before.
pub open spec fn cutoff_of(year: int, month: int) -> int {
    month_start(previous_month(year, month).0, previous_month(year, month).1)
}

/// Whether a message with this timestamp falls inside the window.
pub open spec fn within(timestamp: i64, cutoff: i64) -> bool {
    timestamp >= cutoff
}

/// `chrono::NaiveDate::from_ymd_opt` for the first day of a month, taken to
/// midnight with `and_hms_opt`, to UTC with `and_utc` and to seconds with
/// `DateTime::timestamp`. A date is made exactly for the months 1 to 12 of the
/// years chrono supports; its timestamp counts the days of the proleptic
/// Gregorian calendar from 1970-01-01, at 86400 seconds each.
#[verifier::external_body]
fn month_start_timestamp(year: i32, month: u32) -> (r: Option<i64>)
    ensures
        r is Some <==> valid_month(year as int, month as int),
        r matches Some(t) ==> t as int == month_start(year as int, month as int),
{
    let date = chrono::NaiveDate::from_ymd_opt(year, month, 1)?;
    let midnight = date.and_hms_opt(0, 0, 0)?;
    Some(midnight.and_utc().timestamp())
}

/// The calendar month after the given one.
pub open spec fn next_month(year: int, month: int) -> (int, int) {
    if month == 12 {
        (year + 1, 1)
    } else {
        (year, month + 1)
    }
}

/// Whether the instant `seconds` after the epoch lies in the given month.
pub open spec fn holds_instant(year: int, month: int, seconds: int) -> bool {
    month_start(year, month) <= seconds < month_start(
        next_month(year, month).0,
        next_month(year, month).1,
    )
}

/// `chrono::DateTime::from_timestamp` for a whole second, read with
/// `Datelike::year` and `Datelike::month`. There is a date exactly for the
/// instants within the years chrono supports; the month read is the one that
/// holds the instant, and no instant after the epoch lies before 1970.
#[verifier::external_body]
fn month_of_instant(seconds: i64) -> (r: Option<(i32, u32)>)
    ensures
        r is Some <==> month_start(MIN_YEAR as int, 1) <= seconds < month_start(MAX_YEAR + 1, 1),
        r matches Some(read) ==> valid_month(read.0 as int, read.1 as int) && holds_instant(
            read.0 as int,
            read.1 as int,
            seconds as int,
        ) && (seconds >= 0 ==> read.0 >= 1970),
{
    let at = chrono::DateTime::from_timestamp(seconds, 0)?;
    Some((chrono::Datelike::year(&at), chrono::Datelike::month(&at)))
}

/// `SystemTime::elapsed` of `std::time::UNIX_EPOCH`, in whole seconds
/// (`Duration::as_secs`): how long ago the epoch was by the clock of this
/// machine, or nothing where the clock stands before the epoch.
#[verifier::external_body]
fn seconds_since_epoch() -> (r: Option<u64>)
{
    match std::time::UNIX_EPOCH.elapsed() {
        Ok(span) => Some(span.as_secs()),
        Err(_) => None,
    }
}

/// The cutoff of a run that starts in the given month. There is none where
/// the month is not 1 to 12 or the month before lies outside the supported
/// years.
pub fn cutoff_timestamp(year: i32, month: u32) -> (r: Option<i64>)
    ensures
        r is Some <==> 1 <= month <= 12 && valid_month(
            previous_month(year as int, month as int).0,
            previous_month(year as int, month as int).1,
        ),
        r matches Some(t) ==> t as int == cutoff_of(year as int, month as int),
{
    if month < 1 || month > 12 {
        return None;
    }
    if month == 1 {
        match year.checked_sub(1) {
            Some(before) => month_start_timestamp(before, 12),
            None => None,
        }
    } else {
        month_start_timestamp(year, month - 1)
    }
}

/// Whether `cutoff` is the cutoff of a run that starts while the clock reads
/// the given month of the given year, which is 1970 or later: the first
/// instant of the month before.
pub open spec fn is_cutoff_at(year: int, month: int, cutoff: Option<i64>) -> bool {
    &&& 1970 <= year <= MAX_YEAR
    &&& 1 <= month <= 12
    &&& cutoff == Some(cutoff_of(year, month) as i64)
    &&& cutoff_of(year, month) == (cutoff_of(year, month) as i64) as int
}

/// The cutoff of a run that starts `seconds` after the epoch: that of the
/// month in which the instant lies. There is one for every instant within
/// the supported years.
pub fn cutoff_at(seconds: u64) -> (r: Option<i64>)
    ensures
        r is Some <==> seconds < month_start(MAX_YEAR + 1, 1),
        r is Some ==> exists|year: int, month: int|
            is_cutoff_at(year, month, r) && #[trigger] holds_instant(year, month, seconds as int),
{
    assert(month_start(MIN_YEAR as int, 1) <= 0 && month_start(MAX_YEAR + 1, 1) <= i64::MAX) by {
        lemma_supported_instants();
    }
    if seconds > i64::MAX as u64 {
        return None;
    }
    match month_of_instant(seconds as i64) {
        Some((year, month)) => {
            let r = cutoff_timestamp(year, month);
            assert(is_cutoff_at(year as int, month as int, r) && holds_instant(
                year as int,
                month as int,
                seconds as int,
            ));
            r
        },
        None => None,
    }
}

/// The supported years begin before the epoch and end within the instants
/// that can be written.
proof fn lemma_supported_instants()
    ensures
        month_start(MIN_YEAR as int, 1) <= 0,
        month_start(MAX_YEAR + 1, 1) <= i64::MAX,
{
    assert(days_before_month(MIN_YEAR as int, 1) == 0);
    assert(days_before_month(MAX_YEAR + 1, 1) == 0);
    assert(leap_years_through(1969) == 477);
    assert(leap_years_through(-262144) == -65536 + 2622 - 656) by {
        assert((-262144int) / 4 == -65536);
        assert((-262144int) / 100 == -2622);
        assert((-262144int) / 400 == -656);
    }
    assert(leap_years_through(262142) == 65535 - 2621 + 655) by {
        assert(262142int / 4 == 65535);
        assert(262142int / 100 == 2621);
        assert(262142int / 400 == 655);
    }
}

/// The cutoff of a run that starts now, by the clock of this machine: the
/// cutoff of the month in which the clock stands. There is none where the
/// clock stands before the epoch or behind the supported years.
pub fn current_cutoff() -> (r: Option<i64>)
    ensures
        r is Some ==> exists|year: int, month: int| is_cutoff_at(year, month, r),
{
    match seconds_since_epoch() {
        Some(seconds) => {
            let r = cutoff_at(seconds);
            proof {
                if r is Some {
                    let (year, month) = choose|year: int, month: int|
                        is_cutoff_at(year, month, r) && #[trigger] holds_instant(
                            year,
                            month,
                            seconds as int,
                        );
                    assert(is_cutoff_at(year, month, r));
                }
            }
            r
        },
        None => None,
    }
}

/// Whether a message with this timestamp falls inside the window that starts
/// at `cutoff`.
pub fn in_window(timestamp: i64, cutoff: i64) -> (r: bool)
    ensures
        r == within(timestamp, cutoff),
{
    timestamp >= cutoff
}

/// In January the cutoff is the first of December of the year before; in any
/// other month it is the first of the month before, in the same year.
pub proof fn lemma_cutoff_month(year: int, month: int)
    requires
        1 <= month <= 12,
    ensures
        month == 1 ==> cutoff_of(year, month) == month_start(year - 1, 12),
        month > 1 ==> cutoff_of(year, month) == month_start(year, month - 1),
{
}

/// The days of a year that lie before the first of December.
proof fn lemma_days_before_december(year: int)
    ensures
        days_before_month(year, 12) == 334 + (if is_leap_year(year) {
            1int
        } else {
            0int
        }),
{
    reveal_with_fuel(days_before_month, 13);
}

/// One more leap year has passed through `year` than through the year before
/// exactly where `year` is a leap year.
proof fn lemma_leap_years_step(year: int)
    ensures
        leap_years_through(year) - leap_years_through(year - 1) == (if is_leap_year(year) {
            1int
        } else {
            0int
        }),
{
    let a = year / 4;
    let b = (year - 1) / 4;
    assert(a - b == (if year % 4 == 0 {
        1int
    } else {
        0int
    })) by {
        assert(year == 4 * a + year % 4 && year - 1 == 4 * b + (year - 1) % 4);
    }
    let c = year / 100;
    let d = (year - 1) / 100;
    assert(c - d == (if year % 100 == 0 {
        1int
    } else {
        0int
    })) by {
        assert(year == 100 * c + year % 100 && year - 1 == 100 * d + (year - 1) % 100);
    }
    let e = year / 400;
    let f = (year - 1) / 400;
    assert(e - f == (if year % 400 == 0 {
        1int
    } else {
        0int
    })) by {
        assert(year == 400 * e + year % 400 && year - 1 == 400 * f + (year - 1) % 400);
    }
    assert(year % 400 == 0 ==> year % 100 == 0) by {
        assert(year == 400 * e + year % 400 && year == 100 * c + year % 100);
    }
    assert(year % 100 == 0 ==> year % 4 == 0) by {
        assert(year == 100 * c + year % 100 && year == 4 * a + year % 4);
    }
}

/// The cutoff lies before the first instant of the current month, by the
/// length of the month before it.
pub proof fn lemma_cutoff_precedes_month(year: int, month: int)
    requires
        1 <= month <= 12,
    ensures
        month_start(year, month) - cutoff_of(year, month) == 86400 * days_in_month(
            previous_month(year, month).0,
            previous_month(year, month).1,
        ),
{
    if month == 1 {
        lemma_days_before_december(year - 1);
        lemma_leap_years_step(year - 1);
    }
}

} // verus!
