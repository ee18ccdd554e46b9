//! Calendar dates and instants, held as plain numbers.
//!
//! A [`Date`] is a proleptic Gregorian calendar day, validated by `chrono`
//! when it is built; a [`Timestamp`] is an instant read from the system clock.

use chrono::Datelike;
use vstd::prelude::*;

verus! {

/// The earliest year `chrono::NaiveDate` can represent.
pub const MIN_YEAR: i32 = -262143i32;

/// The latest year `chrono::NaiveDate` can represent.
pub const MAX_YEAR: i32 = 262142i32;

/// Gregorian leap-year rule.
pub open spec fn is_leap_year(year: int) -> bool {
    (year % 4 == 0 && year % 100 != 0) || year % 400 == 0
}

/// Number of days in `month` (1..=12) of `year`.
pub open spec fn days_in_month(year: int, month: int) -> int {
    if month == 2 {
        if is_leap_year(year) {
            29
        } else {
            28
        }
    } else if month == 4 || month == 6 || month == 9 || month == 11 {
        30
    } else {
        31
    }
}

/// `(year, month, day)` names a day of the calendar that `chrono` can hold.
pub open spec fn valid_ymd(year: int, month: int, day: int) -> bool {
    &&& MIN_YEAR <= year <= MAX_YEAR
    &&& 1 <= month <= 12
    &&& 1 <= day <= days_in_month(year, month)
}

/// The decimal digits of `n`, without leading zeros (`0` for zero).
pub open spec fn digits(n: nat) -> Seq<char>
    decreases n,
{
    if n < 10 {
        seq![(48 + n) as char]
    } else {
        digits(n / 10).push((48 + n % 10) as char)
    }
}

/// The digits of `n`, padded with leading zeros to at least `width`.
pub open spec fn zero_padded(n: nat, width: nat) -> Seq<char> {
    let d = digits(n);
    if d.len() >= width {
        d
    } else {
        Seq::new((width - d.len()) as nat, |i: int| '0') + d
    }
}

/// ISO 8601 text of a date, `YYYY-MM-DD`; years outside 0..=9999 carry an
/// explicit sign and at least four digits.
pub open spec fn date_text(year: int, month: int, day: int) -> Seq<char> {
    let y = if 0 <= year <= 9999 {
        zero_padded(year as nat, 4)
    } else if year < 0 {
        seq!['-'] + zero_padded((-year) as nat, 4)
    } else {
        seq!['+'] + zero_padded(year as nat, 4)
    };
    y + seq!['-'] + zero_padded(month as nat, 2) + seq!['-'] + zero_padded(day as nat, 2)
}

/// What `chrono::NaiveDate`'s `FromStr` reads from a text, as
/// `(year, month, day)` (`None` for text it rejects).
pub uninterp spec fn naive_date_from_str(text: Seq<char>) -> Option<(int, int, int)>;

/// A calendar day. Dates order by year, then month, then day.
#[derive(Clone, Copy, Debug, PartialEq, Eq, Structural, Hash, PartialOrd, Ord)]
pub struct Date {
    pub(crate) year: i32,
    pub(crate) month: u32,
    pub(crate) day: u32,
}

/// `a` falls strictly before `b`.
pub open spec fn date_lt(a: Date, b: Date) -> bool {
    let (ay, am, ad) = a@;
    let (by, bm, bd) = b@;
    ay < by || (ay == by && (am < bm || (am == bm && ad < bd)))
}

impl Date {
    /// Every date is a day of the calendar.
    #[verifier::type_invariant]
    spec fn well_formed(self) -> bool {
        valid_ymd(self.year as int, self.month as int, self.day as int)
    }

    pub open(crate) spec fn view(&self) -> (int, int, int) {
        (self.year as int, self.month as int, self.day as int)
    }

    /// The day `year-month-day`, or `None` when it does not exist (month
    /// outside 1..=12, day past the month's end) or lies outside the years
    /// `chrono` supports.
    pub fn from_ymd_opt(year: i32, month: u32, day: u32) -> (r: Option<Date>)
        ensures
            r is Some <==> valid_ymd(year as int, month as int, day as int),
            r matches Some(d) ==> d@ == (year as int, month as int, day as int),
    {
        naive_date_from_ymd_opt(year, month, day)
    }

    pub fn year(&self) -> (r: i32)
        ensures
            r == self@.0,
    {
        self.year
    }

    pub fn month(&self) -> (r: u32)
        ensures
            r == self@.1,
    {
        self.month
    }

    pub fn day(&self) -> (r: u32)
        ensures
            r == self@.2,
    {
        self.day
    }

    /// The ISO 8601 text, e.g. `2024-01-15`.
    pub fn to_string(&self) -> (r: String)
        ensures
            r@ == date_text(self@.0, self@.1, self@.2),
            valid_ymd(self@.0, self@.1, self@.2),
    {
        proof {
            use_type_invariant(self);
        }
        format_naive_date(self)
    }

    /// Reads an ISO 8601 date (`YYYY-MM-DD`); rejected text yields the
    /// parser's message.
    pub fn parse(text: &str) -> (r: Result<Date, String>)
        ensures
            r is Ok <==> naive_date_from_str(text@) is Some,
            r matches Ok(d) ==> naive_date_from_str(text@) == Some(d@) && valid_ymd(
                d@.0,
                d@.1,
                d@.2,
            ),
            r is Err ==> forall|y: int, m: int, d: int|
                !(valid_ymd(y, m, d) && text@ == date_text(y, m, d)),
            r matches Ok(x) ==> forall|y: int, m: int, d: int|
                valid_ymd(y, m, d) && text@ == date_text(y, m, d) ==> x@ == (y, m, d),
    {
        parse_naive_date(text)
    }

    /// Whether `self` falls strictly before `other`.
    pub fn is_before(&self, other: &Date) -> (r: bool)
        ensures
            r == date_lt(*self, *other),
    {
        self.year < other.year || (self.year == other.year && (self.month < other.month || (
        self.month == other.month && self.day < other.day)))
    }
}

/// `chrono::NaiveDate::from_ymd_opt`: `Some` exactly for the days of the
/// proleptic Gregorian calendar within `chrono`'s year range, keeping the
/// year, month and day it was given.
#[verifier::external_body]
fn naive_date_from_ymd_opt(year: i32, month: u32, day: u32) -> (r: Option<Date>)
    ensures
        r is Some <==> valid_ymd(year as int, month as int, day as int),
        r matches Some(d) ==> d@ == (year as int, month as int, day as int),
{
    match chrono::NaiveDate::from_ymd_opt(year, month, day) {
        Some(d) => Some(Date { year: d.year(), month: d.month(), day: d.day() }),
        None => None,
    }
}

/// `chrono::NaiveDate`'s `Display`: `YYYY-MM-DD`, with a sign and at least
/// four year digits outside 0..=9999.
#[verifier::external_body]
fn format_naive_date(date: &Date) -> (r: String)
    requires
        valid_ymd(date@.0, date@.1, date@.2),
    ensures
        r@ == date_text(date@.0, date@.1, date@.2),
{
    match chrono::NaiveDate::from_ymd_opt(date.year, date.month, date.day) {
        Some(d) => d.to_string(),
        None => String::new(),
    }
}

/// `chrono::NaiveDate`'s `FromStr`; every date it yields is a valid one. A
/// rejection becomes the error's message, whose text is not stated. It reads
/// the `%Y-%m-%d` layout that `Display` writes (a signed year of any width
/// included), back to the same day.
#[verifier::external_body]
fn parse_naive_date(text: &str) -> (r: Result<Date, String>)
    ensures
        r is Ok <==> naive_date_from_str(text@) is Some,
        r matches Ok(d) ==> naive_date_from_str(text@) == Some(d@) && valid_ymd(d@.0, d@.1, d@.2),
        r is Err ==> forall|y: int, m: int, d: int|
            !(valid_ymd(y, m, d) && text@ == date_text(y, m, d)),
        r matches Ok(x) ==> forall|y: int, m: int, d: int|
            valid_ymd(y, m, d) && text@ == date_text(y, m, d) ==> x@ == (y, m, d),
{
    match text.parse::<chrono::NaiveDate>() {
        Ok(d) => Ok(Date { year: d.year(), month: d.month(), day: d.day() }),
        Err(e) => Err(e.to_string()),
    }
}

/// An instant, as seconds and nanoseconds since the Unix epoch (UTC).
#[derive(Clone, Copy, Debug, PartialEq, Eq, Structural, Hash, PartialOrd, Ord)]
pub struct Timestamp {
    pub(crate) seconds: i64,
    pub(crate) nanos: u32,
}

impl Timestamp {
    pub open(crate) spec fn view(&self) -> (int, int) {
        (self.seconds as int, self.nanos as int)
    }

    /// The instant `seconds` (and `nanos`) after the Unix epoch.
    pub fn from_unix(seconds: i64, nanos: u32) -> (r: Timestamp)
        ensures
            r@ == (seconds as int, nanos as int),
    {
        Timestamp { seconds, nanos }
    }

    /// The current time, read from the system clock: whole seconds since the
    /// Unix epoch and the nanoseconds of the current second.
    pub fn now() -> (r: Timestamp)
        ensures
            r@.0 >= 0,
            0 <= r@.1 < 1_000_000_000,
    {
        utc_now()
    }

    pub fn unix_seconds(&self) -> (r: i64)
        ensures
            r == self@.0,
    {
        self.seconds
    }

    pub fn subsec_nanos(&self) -> (r: u32)
        ensures
            r == self@.1,
    {
        self.nanos
    }
}

/// `chrono::Utc::now`, as Unix seconds and nanoseconds. It reads the clock,
/// so only the shape of the value is promised: it is the system time's
/// distance from the Unix epoch, whole seconds at or after it and a
/// sub-second part below one second.
#[verifier::external_body]
fn utc_now() -> (r: Timestamp)
    ensures
        r@.0 >= 0,
        0 <= r@.1 < 1_000_000_000,
{
    let now = chrono::Utc::now();
    Timestamp { seconds: now.timestamp(), nanos: now.timestamp_subsec_nanos() }
}

} // verus!
