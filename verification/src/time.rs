//! Instants, calendar days and the periods that history is rolled up by.

use chrono::Datelike;
use vstd::prelude::*;

verus! {

/// Milliseconds in one calendar day.
pub const MILLIS_PER_DAY: i64 = 86_400_000;

/// The earliest instant a record can carry: the first millisecond of year 0000.
pub const MIN_MILLIS: i64 = -62_167_219_200_000;

/// The latest instant a record can carry: the last millisecond of year 9999.
pub const MAX_MILLIS: i64 = 253_402_300_799_999;

/// The day number of the earliest instant.
pub const MIN_DAY: i64 = -719_528;

/// The day number of the latest instant.
pub const MAX_DAY: i64 = 2_932_896;

/// How many days of history are kept.
pub const HISTORY_DAYS: i64 = 90;

/// The length of the retention window in milliseconds.
pub const HISTORY_MILLIS: i64 = HISTORY_DAYS * MILLIS_PER_DAY;

/// An instant in UTC, to the millisecond, between the years 0000 and 9999.
///
/// Its view is the number of milliseconds since 1970-01-01T00:00:00Z.
#[derive(Clone, Copy, Debug, PartialEq, Eq, Structural)]
pub struct Timestamp {
    millis: i64,
}

impl View for Timestamp {
    type V = int;

    closed spec fn view(&self) -> int {
        self.millis as int
    }
}

/// Whether `millis` lies in the range of instants that a `Timestamp` can hold.
pub open spec fn in_range(millis: int) -> bool {
    MIN_MILLIS <= millis <= MAX_MILLIS
}

/// The calendar day, counted from 1970-01-01 as day 0, that holds the instant `millis`.
pub open spec fn day_of(millis: int) -> int {
    millis / (MILLIS_PER_DAY as int)
}

impl Timestamp {
    #[verifier::type_invariant]
    spec fn holds_range(self) -> bool {
        in_range(self.millis as int)
    }

    /// The timestamp `millis` milliseconds after the Unix epoch, if that lies
    /// between the years 0000 and 9999.
    pub fn from_millis(millis: i64) -> (ts: Option<Timestamp>)
        ensures
            ts is Some <==> in_range(millis as int),
            ts is Some ==> ts->0@ == millis,
    {
        if MIN_MILLIS <= millis && millis <= MAX_MILLIS {
            Some(Timestamp { millis })
        } else {
            None
        }
    }

    /// Milliseconds since the Unix epoch.
    pub fn millis(&self) -> (millis: i64)
        ensures
            millis == self@,
            in_range(millis as int),
    {
        proof {
            use_type_invariant(self);
        }
        self.millis
    }

    /// The timestamp nearest to `millis` in the supported range: `millis`
    /// itself where it lies in the range, else the end of the range on its side.
    pub fn saturating_from_millis(millis: i64) -> (ts: Timestamp)
        ensures
            ts@ == saturated(millis as int),
    {
        if millis < MIN_MILLIS {
            Timestamp { millis: MIN_MILLIS }
        } else if millis > MAX_MILLIS {
            Timestamp { millis: MAX_MILLIS }
        } else {
            Timestamp { millis }
        }
    }

    /// The current instant, as the system clock gives it, held to the
    /// supported range. Nothing is known of the result but that it lies in
    /// that range.
    pub fn now() -> (ts: Timestamp)
        ensures
            in_range(ts@),
    {
        Timestamp::saturating_from_millis(now_millis())
    }

    /// The timestamp a stored text stands for, given what parsing it as
    /// RFC 3339 gave: the parsed instant where there is one in the supported
    /// range, else `fallback`. A malformed stored timestamp thus never fails
    /// a read.
    pub fn from_parsed(parsed: Option<i64>, fallback: Timestamp) -> (ts: Timestamp)
        ensures
            ts@ == lenient(parsed, fallback@),
    {
        match parsed {
            Some(millis) => {
                if MIN_MILLIS <= millis && millis <= MAX_MILLIS {
                    Timestamp { millis }
                } else {
                    fallback
                }
            },
            None => fallback,
        }
    }

    /// Reads a stored RFC 3339 timestamp, taking `fallback` where the text
    /// does not parse or lies outside the supported range.
    pub fn parse_rfc3339_or(text: &str, fallback: Timestamp) -> (ts: Timestamp)
        ensures
            ts@ == lenient(rfc3339_millis(text@), fallback@),
    {
        Timestamp::from_parsed(parse_rfc3339(text), fallback)
    }

    /// The RFC 3339 text of this instant, the form in which it is stored.
    pub fn to_rfc3339(&self) -> (text: String)
        ensures
            text@ == rfc3339_text(self@),
    {
        proof {
            use_type_invariant(self);
        }
        format_rfc3339(self.millis)
    }

    /// Whether a record made at this instant has left the retention window
    /// by the instant `now`.
    pub fn expired_at(&self, now: Timestamp) -> (gone: bool)
        ensures
            gone == expired(self@, now@),
    {
        proof {
            use_type_invariant(self);
            use_type_invariant(now);
        }
        self.millis < now.millis - HISTORY_MILLIS
    }

    /// The instant before which records have left the retention window as
    /// of this instant, held to the supported range: a record is expired
    /// exactly if it was made before it.
    pub fn retention_cutoff(&self) -> (cutoff: Timestamp)
        ensures
            cutoff@ == saturated(self@ - HISTORY_MILLIS),
            forall|at: int| in_range(at) ==> (#[trigger] expired(at, self@) <==> at < cutoff@),
    {
        proof {
            use_type_invariant(self);
        }
        Timestamp::saturating_from_millis(self.millis - HISTORY_MILLIS)
    }

    /// The calendar date of this instant, as `YYYY-MM-DD`.
    pub fn date_label(&self) -> (label: String)
        ensures
            label@ == date_text(day_of(self@)),
    {
        date_label(self.day())
    }

    /// The calendar month of this instant, as `YYYY-MM`.
    pub fn month_label(&self) -> (label: String)
        ensures
            label@ == month_text(day_of(self@)),
    {
        month_label(self.day())
    }

    /// The calendar day that holds this instant.
    pub fn day(&self) -> (day: i64)
        ensures
            day == day_of(self@),
            MIN_DAY <= day <= MAX_DAY,
    {
        proof {
            use_type_invariant(self);
        }
        let shifted: i64 = self.millis - MIN_MILLIS;
        shifted / MILLIS_PER_DAY + MIN_DAY
    }
}

/// `millis` held to the supported range.
pub open spec fn saturated(millis: int) -> int {
    if millis < MIN_MILLIS {
        MIN_MILLIS as int
    } else if millis > MAX_MILLIS {
        MAX_MILLIS as int
    } else {
        millis
    }
}

/// The instant that a stored timestamp is read as: what it parsed to, where
/// that exists and lies in the supported range, else `fallback`.
pub open spec fn lenient(parsed: Option<i64>, fallback: int) -> int {
    match parsed {
        Some(millis) => if in_range(millis as int) {
            millis as int
        } else {
            fallback
        },
        None => fallback,
    }
}

/// Whether a record made at `at` is older than the retention window as of `now`.
pub open spec fn expired(at: int, now: int) -> bool {
    at < now - HISTORY_MILLIS
}

/// The calendar periods that history is rolled up by.
#[derive(Clone, Copy, Debug, PartialEq, Eq, Structural)]
pub enum Period {
    /// One calendar day.
    Day,
    /// Seven days, from a Monday to the Sunday after it.
    Week,
    /// One calendar month.
    Month,
}

/// Whether chrono can be asked for the calendar date of day number `day`:
/// the days of the supported years and a month to either side.
pub open spec fn supported_day(day: int) -> bool {
    MIN_DAY - 31 <= day <= MAX_DAY + 31
}

/// The days on which a period that holds a supported instant can start: the
/// days of the supported years and the month before them.
pub open spec fn start_day_range(day: int) -> bool {
    MIN_DAY - 31 <= day <= MAX_DAY
}

/// The Sunday on or after `day`.
pub open spec fn week_end(day: int) -> int {
    day + (7 - (day + 4) % 7) % 7
}

/// The Monday that opens the week of `day`: six days before that week's Sunday.
pub open spec fn week_start(day: int) -> int {
    week_end(day) - 6
}

/// The first day of the calendar month that holds `day`.
pub open spec fn month_start(day: int) -> int {
    day - (day_of_month(day) - 1)
}

/// The first day of the period of kind `period` that holds `day`. Rows are
/// bucketed by this day.
pub open spec fn period_start(period: Period, day: int) -> int {
    match period {
        Period::Day => day,
        Period::Week => week_start(day),
        Period::Month => month_start(day),
    }
}

impl Period {
    /// The first day of the period of this kind that holds the instant `at`.
    pub fn start_day(&self, at: Timestamp) -> (start: i64)
        ensures
            start == period_start(*self, day_of(at@)),
            start_day_range(start as int),
    {
        let day: i64 = at.day();
        match self {
            Period::Day => day,
            Period::Week => {
                let weekday: i64 = (day - MIN_DAY + 6) % 7;
                let ahead: i64 = (7 - weekday) % 7;
                day + ahead - 6
            },
            Period::Month => {
                let nth: u32 = day_in_month(day as i32);
                day - (nth as i64 - 1)
            },
        }
    }
}

/// The text `YYYY-MM-DD` of the calendar date with day number `day`.
pub(crate) fn date_label(day: i64) -> (label: String)
    requires
        supported_day(day as int),
    ensures
        label@ == date_text(day as int),
{
    format_date(day as i32)
}

/// The text `YYYY-MM` of the calendar month that holds day number `day`.
pub(crate) fn month_label(day: i64) -> (label: String)
    requires
        supported_day(day as int),
    ensures
        label@ == month_text(day as int),
{
    format_month(day as i32)
}

/// What chrono's `%Y-%m-%d` formatting gives for the date `day` days after 1970-01-01.
pub uninterp spec fn date_text(day: int) -> Seq<char>;

/// What chrono's `%Y-%m` formatting gives for the date `day` days after 1970-01-01.
pub uninterp spec fn month_text(day: int) -> Seq<char>;

/// The day of the month, counted from 1, of the date `day` days after 1970-01-01.
pub uninterp spec fn day_of_month(day: int) -> int;

/// What chrono's RFC 3339 formatting gives for the UTC instant `millis`
/// milliseconds after the Unix epoch.
pub uninterp spec fn rfc3339_text(millis: int) -> Seq<char>;

/// What chrono's RFC 3339 parser makes of `text`: the instant in milliseconds
/// after the Unix epoch, or nothing where the text is no RFC 3339 date and time.
pub uninterp spec fn rfc3339_millis(text: Seq<char>) -> Option<i64>;

/// Reads the system clock through chrono's `Utc::now` and takes the instant's
/// `timestamp_millis`. The result depends on the clock, so nothing is claimed
/// of it. chrono panics where the clock stands before 1970.
#[verifier::external_body]
fn now_millis() -> i64 {
    chrono::Utc::now().timestamp_millis()
}

/// Calls chrono's `DateTime::parse_from_rfc3339` and takes the parsed
/// instant's `timestamp_millis`; a parse error becomes `None`. The result
/// depends on the text alone.
#[verifier::external_body]
fn parse_rfc3339(text: &str) -> (millis: Option<i64>)
    ensures
        millis == rfc3339_millis(text@),
{
    match chrono::DateTime::parse_from_rfc3339(text) {
        Ok(at) => Some(at.timestamp_millis()),
        Err(_) => None,
    }
}

/// Calls chrono's `DateTime::from_timestamp_millis`, which has a value for
/// every instant of the supported range, and its `to_rfc3339`. The result
/// depends on the instant alone.
#[verifier::external_body]
fn format_rfc3339(millis: i64) -> (text: String)
    requires
        in_range(millis as int),
    ensures
        text@ == rfc3339_text(millis as int),
{
    chrono::DateTime::from_timestamp_millis(millis).unwrap().to_rfc3339()
}

/// Calls chrono's `NaiveDate::from_epoch_days`, which has a date for every
/// supported day, and formats it with `%Y-%m-%d`. The result depends on the
/// day alone.
#[verifier::external_body]
fn format_date(day: i32) -> (label: String)
    requires
        supported_day(day as int),
    ensures
        label@ == date_text(day as int),
{
    chrono::NaiveDate::from_epoch_days(day).unwrap().format("%Y-%m-%d").to_string()
}

/// Calls chrono's `NaiveDate::from_epoch_days`, which has a date for every
/// supported day, and formats it with `%Y-%m`. The result depends on the day
/// alone.
#[verifier::external_body]
fn format_month(day: i32) -> (label: String)
    requires
        supported_day(day as int),
    ensures
        label@ == month_text(day as int),
{
    chrono::NaiveDate::from_epoch_days(day).unwrap().format("%Y-%m").to_string()
}

/// Calls chrono's `NaiveDate::from_epoch_days`, which has a date for every
/// supported day, and its `Datelike::day`, which chrono documents to lie
/// between 1 and 31. The result depends on the day alone.
#[verifier::external_body]
fn day_in_month(day: i32) -> (nth: u32)
    requires
        supported_day(day as int),
    ensures
        nth == day_of_month(day as int),
        1 <= nth <= 31,
{
    chrono::NaiveDate::from_epoch_days(day).unwrap().day()
}

} // verus!
