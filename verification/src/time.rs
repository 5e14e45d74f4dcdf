//! Points in time, as whole seconds since the Unix epoch and the nanoseconds after them.

use vstd::prelude::*;
use vstd::string::*;

verus! {

/// The seconds in a day.
pub const DAY_SECONDS: i64 = 86_400;

/// The first second of the first year that a calendar date can stand for.
pub const FIRST_SECOND: i64 = -8_334_601_228_800;

/// The last second of the last year that a calendar date can stand for.
pub const LAST_SECOND: i64 = 8_210_266_876_799;

/// A point in time.
#[derive(Clone, Copy, Debug, PartialEq, Eq, Structural, Hash)]
pub struct Timestamp {
    /// Whole seconds since the Unix epoch.
    pub seconds: i64,
    /// Nanoseconds after the whole second.
    pub nanos: u32,
}

/// The nanoseconds of a second. A time with as many or more lies in the leap second after its whole
/// second.
pub const SECOND_NANOS: u32 = 1_000_000_000;

impl Timestamp {
    /// The whole seconds of the time `offset` seconds later. A leap second that is left backwards
    /// counts as one of them.
    pub open spec fn moved_seconds(self, offset: int) -> int {
        if self.nanos >= SECOND_NANOS && offset < 0 {
            self.seconds + offset + 1
        } else {
            self.seconds + offset
        }
    }

    /// The nanoseconds of the time `offset` seconds later, which lies in no leap second unless it is
    /// the time itself.
    pub open spec fn moved_nanos(self, offset: int) -> int {
        if self.nanos >= SECOND_NANOS && offset != 0 {
            self.nanos - SECOND_NANOS
        } else {
            self.nanos as int
        }
    }

    /// The time is `offset` seconds after `reference`, or later.
    pub open spec fn is_not_before(self, reference: Timestamp, offset: int) -> bool {
        ||| self.seconds > reference.moved_seconds(offset)
        ||| self.seconds == reference.moved_seconds(offset) && self.nanos >= reference.moved_nanos(
            offset,
        )
    }

    /// The time `offset` seconds later.
    pub open spec fn later(self, offset: int) -> Timestamp {
        Timestamp {
            seconds: self.moved_seconds(offset) as i64,
            nanos: self.moved_nanos(offset) as u32,
        }
    }

    /// The time `offset` seconds later, where seconds can be counted so far.
    pub fn moved(self, offset: i128) -> (r: Option<Timestamp>)
        requires
            -0x1_0000_0000_0000_0000 <= offset <= 0x1_0000_0000_0000_0000,
        ensures
            match r {
                Some(time) => time.seconds == self.moved_seconds(offset as int) && time.nanos
                    == self.moved_nanos(offset as int),
                None => !(i64::MIN <= self.moved_seconds(offset as int) <= i64::MAX),
            },
    {
        let leap = self.nanos >= SECOND_NANOS;
        let seconds: i128 = if leap && offset < 0 {
            self.seconds as i128 + offset + 1
        } else {
            self.seconds as i128 + offset
        };
        let nanos: u32 = if leap && offset != 0 {
            self.nanos - SECOND_NANOS
        } else {
            self.nanos
        };
        if seconds < i64::MIN as i128 || seconds > i64::MAX as i128 {
            None
        } else {
            Some(Timestamp { seconds: seconds as i64, nanos })
        }
    }

    /// Whether the time is `offset` seconds after `reference`, or later.
    pub fn not_before(self, reference: Timestamp, offset: i128) -> (r: bool)
        requires
            -0x1_0000_0000_0000_0000 <= offset <= 0x1_0000_0000_0000_0000,
        ensures
            r == self.is_not_before(reference, offset as int),
    {
        let leap = reference.nanos >= SECOND_NANOS;
        let mine: i128 = self.seconds as i128;
        let wanted: i128 = if leap && offset < 0 {
            reference.seconds as i128 + offset + 1
        } else {
            reference.seconds as i128 + offset
        };
        let nanos: u32 = if leap && offset != 0 {
            reference.nanos - SECOND_NANOS
        } else {
            reference.nanos
        };
        mine > wanted || (mine == wanted && self.nanos >= nanos)
    }

    /// The seconds of the day that have passed.
    pub open spec fn second_of_day(self) -> int {
        self.seconds as int % 86_400
    }

    /// The nanoseconds from an earlier time to this one. Between two times of day a leap second
    /// counts where one of the two lies in it.
    pub open spec fn nanos_since(self, earlier: Timestamp) -> int {
        let leap: int = if self.second_of_day() > earlier.second_of_day() && earlier.nanos
            >= SECOND_NANOS {
            1
        } else if self.second_of_day() < earlier.second_of_day() && self.nanos >= SECOND_NANOS {
            -1
        } else {
            0
        };
        (self.seconds - earlier.seconds + leap) * 1_000_000_000 + self.nanos - earlier.nanos
    }

    fn day_second(self) -> (r: u32)
        ensures
            r == self.second_of_day(),
    {
        proof {
            vstd::arithmetic::div_mod::lemma_mod_multiples_vanish(
                1_000_000_000_000_000,
                self.seconds as int,
                86_400,
            );
        }
        let shifted: u128 = (self.seconds as i128 + 86_400_000_000_000_000_000i128) as u128;
        (shifted % 86_400) as u32
    }

    /// The nanoseconds from an earlier time to this one.
    pub fn since(self, earlier: Timestamp) -> (r: i128)
        ensures
            r == self.nanos_since(earlier),
            -0x1000_0000_0000_0000_0000_0000_0000 < r < 0x1000_0000_0000_0000_0000_0000_0000,
    {
        let mine: u32 = self.day_second();
        let other: u32 = earlier.day_second();
        let leap: i128 = if mine > other && earlier.nanos >= SECOND_NANOS {
            1
        } else if mine < other && self.nanos >= SECOND_NANOS {
            -1
        } else {
            0
        };
        (self.seconds as i128 - earlier.seconds as i128 + leap) * 1_000_000_000
            + self.nanos as i128 - earlier.nanos as i128
    }

    /// A calendar date and a time of day stand for this time, where a minute may end in a leap
    /// second.
    pub open spec fn writable(self) -> bool {
        FIRST_SECOND <= self.seconds <= LAST_SECOND && (self.nanos < 1_000_000_000 || (self.nanos
            < 2_000_000_000 && self.seconds % 60 == 59))
    }

    /// Whether a calendar date and a time of day stand for the time.
    pub fn is_writable(self) -> (r: bool)
        ensures
            r == self.writable(),
    {
        if self.seconds < FIRST_SECOND || self.seconds > LAST_SECOND {
            return false;
        }
        let shifted: u64 = (self.seconds + 8_400_000_000_000) as u64;
        self.nanos < 1_000_000_000 || (self.nanos < 2_000_000_000 && shifted % 60 == 59)
    }
}

/// The order of times is total: each of two is not before the other, or one is.
pub proof fn lemma_time_order(a: Timestamp, b: Timestamp)
    ensures
        a.is_not_before(b, 0) || b.is_not_before(a, 0),
        a.is_not_before(b, 0) && b.is_not_before(a, 0) ==> a == b,
{
}

/// What is not before one time is as late as that one is.
pub proof fn lemma_later_reaches_earlier(late: Timestamp, a: Timestamp, b: Timestamp, offset: int)
    requires
        late.is_not_before(a, 0),
        a.is_not_before(b, offset),
    ensures
        late.is_not_before(b, offset),
{
}

/// The later of two optional times, where a missing one is before every other.
pub open spec fn latest(a: Option<Timestamp>, b: Option<Timestamp>) -> Option<Timestamp> {
    match (a, b) {
        (Some(x), Some(y)) => if y.is_not_before(x, 0) {
            Some(y)
        } else {
            Some(x)
        },
        (Some(x), None) => Some(x),
        (None, _) => b,
    }
}

/// The later of two optional times.
pub fn later_of(a: Option<Timestamp>, b: Option<Timestamp>) -> (r: Option<Timestamp>)
    ensures
        r == latest(a, b),
{
    match (a, b) {
        (Some(x), Some(y)) => if y.not_before(x, 0) {
            Some(y)
        } else {
            Some(x)
        },
        (Some(x), None) => Some(x),
        (None, _) => b,
    }
}

/// A time is missing, or it is not later than another.
pub open spec fn not_after(a: Option<Timestamp>, b: Option<Timestamp>) -> bool {
    match (a, b) {
        (None, _) => true,
        (Some(_), None) => false,
        (Some(x), Some(y)) => y.is_not_before(x, 0),
    }
}

/// Whether a time is missing or not later than another.
pub fn is_not_after(a: Option<Timestamp>, b: Option<Timestamp>) -> (r: bool)
    ensures
        r == not_after(a, b),
{
    match (a, b) {
        (None, _) => true,
        (Some(_), None) => false,
        (Some(x), Some(y)) => y.not_before(x, 0),
    }
}

/// `chrono::DateTime::from_timestamp` on whole seconds: a time exactly where the calendar has the
/// date.
#[verifier::external_body]
pub(crate) fn from_unix_seconds(seconds: i64) -> (r: Option<Timestamp>)
    ensures
        r == (if FIRST_SECOND <= seconds <= LAST_SECOND {
            Some(Timestamp { seconds, nanos: 0 })
        } else {
            None
        }),
{
    chrono::DateTime::from_timestamp(seconds, 0).map(
        |t| Timestamp { seconds: t.timestamp(), nanos: t.timestamp_subsec_nanos() },
    )
}

/// The time that `chrono` reads from an RFC 3339 text, if it is one.
pub uninterp spec fn rfc3339_time(s: Seq<char>) -> Option<Timestamp>;

/// `chrono::DateTime::parse_from_rfc3339`, taken to UTC.
#[verifier::external_body]
pub(crate) fn parse_rfc3339(s: &str) -> (r: Option<Timestamp>)
    ensures
        r == rfc3339_time(s@),
{
    chrono::DateTime::parse_from_rfc3339(s).ok().map(
        |t| Timestamp { seconds: t.timestamp(), nanos: t.timestamp_subsec_nanos() },
    )
}

/// The time that `chrono` reads from a text by `FromStr`, if it can.
pub uninterp spec fn text_time(s: Seq<char>) -> Option<Timestamp>;

/// `<chrono::DateTime<chrono::Utc> as FromStr>::from_str`.
#[verifier::external_body]
pub(crate) fn parse_time(s: &str) -> (r: Option<Timestamp>)
    ensures
        r == text_time(s@),
{
    s.parse::<chrono::DateTime<chrono::Utc>>().ok().map(
        |t| Timestamp { seconds: t.timestamp(), nanos: t.timestamp_subsec_nanos() },
    )
}

/// How `chrono` shows a time in UTC.
pub uninterp spec fn shown_time(t: Timestamp) -> Seq<char>;

/// `<chrono::DateTime<chrono::Utc> as Display>::fmt`. A time off the calendar cannot be shown.
#[verifier::external_body]
pub(crate) fn show_time(t: Timestamp) -> (r: String)
    requires
        t.writable(),
    ensures
        r@ == shown_time(t),
{
    chrono::DateTime::from_timestamp(t.seconds, t.nanos).unwrap().to_string()
}

/// How `chrono` writes a time in RFC 3339.
pub uninterp spec fn rfc3339_text(t: Timestamp) -> Seq<char>;

/// `chrono::DateTime::to_rfc3339` in UTC. A time off the calendar cannot be written.
#[verifier::external_body]
pub(crate) fn write_rfc3339(t: Timestamp) -> (r: String)
    requires
        t.writable(),
    ensures
        r@ == rfc3339_text(t),
{
    chrono::DateTime::from_timestamp(t.seconds, t.nanos).unwrap().to_rfc3339()
}

/// How `chrono` writes a time in UTC into a JSON text.
pub uninterp spec fn json_time(t: Timestamp) -> Seq<char>;

/// `chrono::DateTime::to_rfc3339_opts` with as many digits as are needed and `Z` for UTC, which is
/// how `chrono` serializes a time. A time off the calendar cannot be written.
#[verifier::external_body]
pub(crate) fn write_json_time(t: Timestamp) -> (r: String)
    requires
        t.writable(),
    ensures
        r@ == json_time(t),
{
    chrono::DateTime::from_timestamp(t.seconds, t.nanos).unwrap().to_rfc3339_opts(
        chrono::SecondsFormat::AutoSi,
        true,
    )
}

/// The year, in UTC, that a time lies in.
pub uninterp spec fn year_in(t: Timestamp) -> i32;

/// `chrono::Datelike::year` in UTC. A time off the calendar lies in no year.
#[verifier::external_body]
fn year_of(t: Timestamp) -> (r: i32)
    requires
        t.writable(),
    ensures
        r == year_in(t),
{
    chrono::Datelike::year(&chrono::DateTime::from_timestamp(t.seconds, t.nanos).unwrap())
}

/// The month, in UTC, that a time lies in.
pub uninterp spec fn month_in(t: Timestamp) -> u32;

/// `chrono::Datelike::month` in UTC. A time off the calendar lies in no month.
#[verifier::external_body]
fn month_of(t: Timestamp) -> (r: u32)
    requires
        t.writable(),
    ensures
        r == month_in(t),
{
    chrono::Datelike::month(&chrono::DateTime::from_timestamp(t.seconds, t.nanos).unwrap())
}

/// The time, in UTC, of a date and a time of day, if the calendar has them.
pub uninterp spec fn time_on(
    year: i32,
    month: u32,
    day: u32,
    hour: u32,
    minute: u32,
    second: u32,
) -> Option<Timestamp>;

/// `chrono::TimeZone::with_ymd_and_hms` in UTC, which gives nothing for what the calendar lacks.
#[verifier::external_body]
fn utc_time(year: i32, month: u32, day: u32, hour: u32, minute: u32, second: u32) -> (r: Option<
    Timestamp,
>)
    ensures
        r == time_on(year, month, day, hour, minute, second),
{
    chrono::TimeZone::with_ymd_and_hms(&chrono::Utc, year, month, day, hour, minute, second)
        .single()
        .map(|t| Timestamp { seconds: t.timestamp(), nanos: t.timestamp_subsec_nanos() })
}

/// The first moment, in UTC, of the month that a time lies in.
pub open spec fn month_start(t: Timestamp) -> Timestamp {
    match time_on(year_in(t), month_in(t), 1, 0, 0, 0) {
        Some(start) => start,
        None => t,
    }
}

/// The first moment, in UTC, of the month that a time lies in. A time off the calendar lies in no
/// month.
pub fn start_of_month(t: Timestamp) -> (r: Timestamp)
    requires
        t.writable(),
    ensures
        r == month_start(t),
{
    match utc_time(year_of(t), month_of(t), 1, 0, 0, 0) {
        Some(start) => start,
        None => t,
    }
}

} // verus!
