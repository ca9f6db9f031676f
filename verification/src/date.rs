//! Calendar dates, held as their day number in the proleptic Gregorian
//! calendar (January 1 of year 1 is day 1), over the range that
//! `chrono::NaiveDate` covers.

use chrono::Datelike;
use chrono::NaiveDate;
use vstd::prelude::*;

verus! {

/// The earliest year that a date can have.
pub const MIN_YEAR: i32 = -262143;

/// The latest year that a date can have.
pub const MAX_YEAR: i32 = 262142;

/// The day number of January 1 of `MIN_YEAR`, the earliest date.
pub const MIN_DAY: i32 = -95746129;

/// The day number of December 31 of `MAX_YEAR`, the latest date.
pub const MAX_DAY: i32 = 95745399;

/// Whether `year` is a leap year of the Gregorian calendar.
pub open spec fn is_leap_year(year: int) -> bool {
    year % 4 == 0 && (year % 100 != 0 || year % 400 == 0)
}

/// The number of days in `month` (1 to 12) of `year`.
pub open spec fn days_in_month(year: int, month: int) -> int {
    if month == 2 {
        if is_leap_year(year) { 29 } else { 28 }
    } else if month == 4 || month == 6 || month == 9 || month == 11 {
        30
    } else {
        31
    }
}

/// Whether year, month and day name a date in the supported range.
pub open spec fn is_valid_ymd(year: int, month: int, day: int) -> bool {
    &&& MIN_YEAR <= year <= MAX_YEAR
    &&& 1 <= month <= 12
    &&& 1 <= day <= days_in_month(year, month)
}

/// Whether `day` is the day number of a date in the supported range.
pub open spec fn is_valid_day(day: int) -> bool {
    MIN_DAY <= day <= MAX_DAY
}

/// The number of days before January 1 of `year`, counted from January 1
/// of year 1 (negative for earlier years).
pub open spec fn days_before_year(year: int) -> int {
    let p = year - 1;
    365 * p + p / 4 - p / 100 + p / 400
}

/// The number of days of `year` before the first of `month` (1 to 12).
pub open spec fn days_before_month(year: int, month: int) -> int {
    let common: int = if month <= 1 {
        0
    } else if month == 2 {
        31
    } else if month == 3 {
        59
    } else if month == 4 {
        90
    } else if month == 5 {
        120
    } else if month == 6 {
        151
    } else if month == 7 {
        181
    } else if month == 8 {
        212
    } else if month == 9 {
        243
    } else if month == 10 {
        273
    } else if month == 11 {
        304
    } else {
        334
    };
    if month > 2 && is_leap_year(year) {
        common + 1
    } else {
        common
    }
}

/// The day number of the date with the given year, month and day: January 1
/// of year 1 is day 1.
pub open spec fn civil_day_number(year: int, month: int, day: int) -> int {
    days_before_year(year) + days_before_month(year, month) + day
}

/// Whether `dom` is the day of the month of day number `day`.
pub open spec fn is_day_of_month(day: int, dom: int) -> bool {
    exists|year: int, month: int|
        is_valid_ymd(year, month, dom) && #[trigger] civil_day_number(year, month, dom) == day
}

/// Whether `year` is the year of day number `day`.
pub open spec fn is_year_of(day: int, year: int) -> bool {
    exists|month: int, dom: int|
        is_valid_ymd(year, month, dom) && #[trigger] civil_day_number(year, month, dom) == day
}

/// The days of a month run on into the next month of the same year: its
/// first day follows the last day of the month before.
pub proof fn lemma_new_month_follows(year: int, month: int)
    requires
        1 <= month < 12,
    ensures
        civil_day_number(year, month + 1, 1) == civil_day_number(year, month, days_in_month(year, month))
            + 1,
{
}

/// The days of a year run on into the next: January 1 follows December 31.
pub proof fn lemma_new_year_follows(year: int)
    ensures
        civil_day_number(year + 1, 1, 1) == civil_day_number(year, 12, 31) + 1,
{
    let p = year - 1;
    assert(year / 100 - p / 100 == (if year % 100 == 0 { 1int } else { 0 }));
}

/// The day number of January 1, 1970, the start of Unix time.
pub open spec fn unix_epoch_day() -> int {
    719_163
}

/// The weekday of a day number, counted from Sunday (0) to Saturday (6).
/// Day 1, January 1 of year 1, is a Monday.
pub open spec fn weekday_of(day: int) -> int {
    day % 7
}

/// `chrono::NaiveDate::from_ymd_opt`, with the date it gives read back as
/// its day number (`Datelike::num_days_from_ce`).
/// The claim: the result is `Some` exactly for an existing calendar date
/// whose year lies in the range of `NaiveDate` (as its documentation says),
/// and is then that date's day number in the proleptic Gregorian calendar,
/// a day number of that range.
#[verifier::external_body]
fn ymd_to_day_number(year: i32, month: u32, day: u32) -> (r: Option<i32>)
    ensures
        r.is_some() <==> is_valid_ymd(year as int, month as int, day as int),
        r matches Some(n) ==> is_valid_day(n as int),
        r matches Some(n) ==> n == civil_day_number(year as int, month as int, day as int),
{
    match NaiveDate::from_ymd_opt(year, month, day) {
        Some(date) => Some(date.num_days_from_ce()),
        None => None,
    }
}

/// `Datelike::weekday` of the date with the given day number
/// (`NaiveDate::from_num_days_from_ce_opt`), read as
/// `Weekday::num_days_from_sunday`.
/// The claim: the weekday follows the seven-day cycle of the proleptic
/// Gregorian calendar, in which day 1 is a Monday.
#[verifier::external_body]
fn day_number_weekday(day: i32) -> (r: u32)
    requires
        is_valid_day(day as int),
    ensures
        r as int == weekday_of(day as int),
{
    NaiveDate::from_num_days_from_ce_opt(day).unwrap().weekday().num_days_from_sunday()
}

/// `Datelike::day` of the date with the given day number
/// (`NaiveDate::from_num_days_from_ce_opt`).
/// The claim: it is the day of the month of that date: some valid calendar
/// date with that day of the month has that day number.
#[verifier::external_body]
fn day_number_day_of_month(day: i32) -> (r: u32)
    requires
        is_valid_day(day as int),
    ensures
        is_day_of_month(day as int, r as int),
{
    NaiveDate::from_num_days_from_ce_opt(day).unwrap().day()
}

/// The ASCII digits of a number from 0 to 99, padded to two.
pub open spec fn two_digits(n: int) -> Seq<u8> {
    seq![(48 + n / 10) as u8, (48 + n % 10) as u8]
}

/// The ASCII decimal digits of `n`, padded with leading zeros to at least
/// `width` digits.
pub open spec fn padded_digits(n: nat, width: nat) -> Seq<u8>
    decreases n + width,
{
    if n < 10 && width <= 1 {
        seq![(48 + n) as u8]
    } else {
        let rest: nat = if width == 0 { 0 } else { (width - 1) as nat };
        padded_digits(n / 10, rest).push((48 + n % 10) as u8)
    }
}

/// The text of a year: four digits from 0 to 9999, else its sign (`+` or
/// `-`) and at least four digits of its magnitude.
pub open spec fn year_text(year: int) -> Seq<u8> {
    if 0 <= year <= 9999 {
        two_digits(year / 100) + two_digits(year % 100)
    } else if year < 0 {
        seq![45u8] + padded_digits((-year) as nat, 4)
    } else {
        seq![43u8] + padded_digits(year as nat, 4)
    }
}

/// The text of a date: its year (see `year_text`), then `-MM-DD`.
pub open spec fn date_text(year: int, month: int, day: int) -> Seq<u8> {
    year_text(year) + seq![45u8] + two_digits(month) + seq![45u8] + two_digits(day)
}

/// The text that `chrono` writes for the date with the given day number.
pub uninterp spec fn date_text_of(day: int) -> Seq<u8>;

/// The text of the date with the given day number: `NaiveDate`'s `Display`
/// (`to_string`), as bytes.
/// The claim, from the source (`Debug`, which `Display` calls): the year is
/// written as four digits from 0 to 9999 and otherwise with `{:+05}` (its
/// sign and at least four digits), then `-`, the month and the day of the
/// month in two digits each, `-` between them; at most 13 bytes.
#[verifier::external_body]
fn day_number_text(day: i32) -> (r: Vec<u8>)
    requires
        is_valid_day(day as int),
    ensures
        r@ == date_text_of(day as int),
        r@.len() <= 13,
        forall|year: int, month: int, dom: int|
            is_valid_ymd(year, month, dom) && #[trigger] civil_day_number(year, month, dom)
                == day ==> r@ == date_text(year, month, dom),
{
    NaiveDate::from_num_days_from_ce_opt(day).unwrap().to_string().into_bytes()
}

/// `std::time::SystemTime::now`, read as the time since the Unix epoch
/// (`SystemTime::duration_since(UNIX_EPOCH)`): whole seconds and the
/// nanoseconds beyond them.
/// The claim: `None` where the clock reads before the epoch, and otherwise
/// fewer than a second's nanoseconds beyond the whole seconds. Which time it
/// is depends on the clock and is not stated.
#[verifier::external_body]
fn clock_since_epoch() -> (r: Option<(u64, u32)>)
    ensures
        r matches Some((_, nanos)) ==> nanos < 1_000_000_000,
{
    match std::time::SystemTime::now().duration_since(std::time::UNIX_EPOCH) {
        Ok(elapsed) => Some((elapsed.as_secs(), elapsed.subsec_nanos())),
        Err(_) => None,
    }
}

/// `chrono::DateTime::from_timestamp`, read as the year of the date it
/// gives (`Datelike::year`).
/// The claim, from the source: the timestamp's day is its seconds divided
/// (rounding down) by 86400, counted from the Unix epoch; the result is
/// `Some` exactly where that day is a `NaiveDate` and the nanoseconds are
/// below a second (or below two seconds in the last second of a minute), and
/// is then the year of that day.
#[verifier::external_body]
fn year_at_timestamp(secs: i64, nanos: u32) -> (r: Option<i32>)
    ensures
        r.is_some() <==> (is_valid_day(secs / 86400 + unix_epoch_day()) && (nanos < 1_000_000_000
            || (nanos < 2_000_000_000 && (secs % 86400) % 60 == 59))),
        r matches Some(year) ==> is_year_of(secs / 86400 + unix_epoch_day(), year as int),
{
    match chrono::DateTime::from_timestamp(secs, nanos) {
        Some(time) => Some(time.year()),
        None => None,
    }
}

/// A year that has a day at or after January 1, 1970 is 1970 or later.
proof fn lemma_year_from_epoch(day: int, year: int)
    requires
        is_year_of(day, year),
        day >= unix_epoch_day(),
    ensures
        year >= 1970,
{
    let (month, dom) = choose|month: int, dom: int|
        is_valid_ymd(year, month, dom) && #[trigger] civil_day_number(year, month, dom) == day;
    if year < 1970 {
        let p = year - 1;
        assert(days_before_year(year) <= 718797) by (nonlinear_arith)
            requires
                p <= 1968,
                days_before_year(year) == 365 * p + p / 4 - p / 100 + p / 400,
        {
            assert(4 * (p / 4) <= p);
            assert(100 * (p / 100) > p - 100);
            assert(400 * (p / 400) <= p);
        }
        if year == 1969 {
            assert(!is_leap_year(year));
        }
    }
}

/// The UTC year at a clock reading of `secs` seconds and `nanos`
/// nanoseconds after the Unix epoch, the seconds taken as an `i64` (a
/// reading beyond `i64::MAX` wraps, as in `chrono::Utc::now`); `None` where
/// no supported date has that time.
pub fn year_at_reading(secs: u64, nanos: u32) -> (r: Option<i32>)
    ensures
        r.is_some() <==> (is_valid_day((secs as i64) / 86400 + unix_epoch_day()) && (nanos
            < 1_000_000_000 || (nanos < 2_000_000_000 && ((secs as i64) % 86400) % 60 == 59))),
        r matches Some(year) ==> is_year_of((secs as i64) / 86400 + unix_epoch_day(), year as int),
        r matches Some(year) ==> MIN_YEAR <= year <= MAX_YEAR,
        r matches Some(year) ==> secs <= i64::MAX ==> year >= 1970,
{
    let r = year_at_timestamp(secs as i64, nanos);
    proof {
        if let Some(year) = r {
            if secs <= i64::MAX {
                lemma_year_from_epoch((secs as i64) / 86400 + unix_epoch_day(), year as int);
            }
        }
    }
    r
}

/// The year of the current date in UTC, or `None` where the clock reads
/// before the Unix epoch or beyond the dates that `NaiveDate` covers.
pub(crate) fn current_year() -> (r: Option<i32>)
    ensures
        r matches Some(year) ==> MIN_YEAR <= year <= MAX_YEAR,
{
    match clock_since_epoch() {
        None => None,
        Some((secs, nanos)) => year_at_reading(secs, nanos),
    }
}

/// A calendar date of the proleptic Gregorian calendar.
#[derive(Clone, Copy, Debug, PartialEq, Eq, Hash)]
pub struct Date {
    day: i32,
}

impl View for Date {
    type V = int;

    closed spec fn view(&self) -> int {
        self.day as int
    }
}

impl Date {
    #[verifier::type_invariant]
    spec fn in_range(self) -> bool {
        is_valid_day(self.day as int)
    }

    /// The date with the given day number (January 1 of year 1 is day 1),
    /// or `None` outside the supported range.
    pub fn from_day_number(day: i32) -> (r: Option<Date>)
        ensures
            r.is_some() <==> is_valid_day(day as int),
            r matches Some(d) ==> d@ == day as int,
    {
        if MIN_DAY <= day && day <= MAX_DAY {
            Some(Date { day })
        } else {
            None
        }
    }

    /// The date with the given year, month (1 to 12) and day of the month,
    /// or `None` where no such date exists in the supported range.
    pub fn from_ymd(year: i32, month: u32, day: u32) -> (r: Option<Date>)
        ensures
            r.is_some() <==> is_valid_ymd(year as int, month as int, day as int),
            r matches Some(d) ==> d@ == civil_day_number(year as int, month as int, day as int),
    {
        match ymd_to_day_number(year, month, day) {
            Some(n) => Some(Date { day: n }),
            None => None,
        }
    }

    /// The day number of the date.
    pub fn day_number(&self) -> (r: i32)
        ensures
            r as int == self@,
            is_valid_day(r as int),
    {
        proof {
            use_type_invariant(self);
        }
        self.day
    }

    /// The day of the month, from 1 to 31.
    pub fn day(&self) -> (r: u32)
        ensures
            is_day_of_month(self@, r as int),
            1 <= r <= 31,
    {
        proof {
            use_type_invariant(self);
        }
        day_number_day_of_month(self.day)
    }

    /// The text of the date, as bytes: `YYYY-MM-DD` for a year from 0 to
    /// 9999, and a signed year of at least four digits otherwise (see
    /// `date_text`).
    pub fn text(&self) -> (r: Vec<u8>)
        ensures
            r@ == date_text_of(self@),
            r@.len() <= 13,
            forall|year: int, month: int, dom: int|
                is_valid_ymd(year, month, dom) && #[trigger] civil_day_number(year, month, dom)
                    == self@ ==> r@ == date_text(year, month, dom),
    {
        proof {
            use_type_invariant(self);
        }
        day_number_text(self.day)
    }

    /// The weekday, counted from Sunday (0) to Saturday (6).
    pub fn weekday_from_sunday(&self) -> (r: u32)
        ensures
            r as int == weekday_of(self@),
            r < 7,
    {
        proof {
            use_type_invariant(self);
        }
        day_number_weekday(self.day)
    }
}

} // verus!
