//! UTC instants, calendar days and the retention cutoff.

use chrono::{Datelike, Timelike};
use vstd::prelude::*;

verus! {

/// Seconds in one UTC calendar day (UTC has no leap seconds in this model).
pub const SECS_PER_DAY: i64 = 86400;

/// Earliest second chrono can represent: -262143-01-01T00:00:00Z.
pub const MIN_UTC_SECS: i64 = -8334601228800;

/// Latest second chrono can represent: +262142-12-31T23:59:59Z.
pub const MAX_UTC_SECS: i64 = 8210266876799;

/// Day number of `MIN_UTC_SECS`.
pub const MIN_UTC_DAY: i64 = -96465292;

/// An instant in UTC: whole seconds since the Unix epoch and the fraction.
///
/// As in chrono, a leap second is written as second 59 with `nanos` of
/// one billion or more.
#[derive(Clone, Copy, Debug, PartialEq, Eq, Structural)]
pub struct Timestamp {
    pub secs: i64,
    pub nanos: u32,
}

impl Timestamp {
    /// The instant lies in chrono's range and its fraction is well formed.
    pub open spec fn wf(self) -> bool {
        &&& MIN_UTC_SECS <= self.secs <= MAX_UTC_SECS
        &&& self.nanos < 2_000_000_000
        &&& self.nanos >= 1_000_000_000 ==> self.secs % 60 == 59
    }

    /// A single integer whose order is the order of instants.
    pub open spec fn key(self) -> int {
        self.secs * 0x1_0000_0000 + self.nanos
    }

    /// The UTC calendar day, counted from 1970-01-01 (day 0).
    pub open spec fn day(self) -> int {
        day_of_secs(self.secs as int)
    }

    /// `self` is at or after `other`.
    pub fn not_before(&self, other: &Timestamp) -> (r: bool)
        ensures
            r == (self.key() >= other.key()),
    {
        proof {
            lemma_key_order(*self, *other);
        }
        self.secs > other.secs || (self.secs == other.secs && self.nanos >= other.nanos)
    }

    /// Whether this instant is well formed, for callers that build one
    /// from outside values.
    pub fn is_wf(&self) -> (r: bool)
        ensures
            r == self.wf(),
    {
        MIN_UTC_SECS <= self.secs && self.secs <= MAX_UTC_SECS && self.nanos < 2_000_000_000 && (
        self.nanos < 1_000_000_000 || self.secs % 60 == 59 || self.secs % 60 == -1)
    }

    /// The UTC calendar day of this instant.
    pub fn utc_day(&self) -> (r: i64)
        requires
            self.wf(),
        ensures
            r == self.day(),
    {
        let shifted: u64 = (self.secs - MIN_UTC_SECS) as u64;
        let d: i64 = (shifted / 86400) as i64 + MIN_UTC_DAY;
        proof {
            lemma_day_shift(self.secs as int);
        }
        d
    }
}

proof fn lemma_key_order(a: Timestamp, b: Timestamp)
    ensures
        a.key() >= b.key() <==> (a.secs > b.secs || (a.secs == b.secs && a.nanos >= b.nanos)),
{
    let (x, y, m, n): (int, int, int, int) = (a.secs as int, b.secs as int, a.nanos as int, b.nanos as int);
    if x > y {
        assert(x * 0x1_0000_0000 + m >= y * 0x1_0000_0000 + n) by (nonlinear_arith)
            requires
                x > y,
                0 <= m < 0x1_0000_0000,
                0 <= n < 0x1_0000_0000,
        ;
    } else if x < y {
        assert(x * 0x1_0000_0000 + m < y * 0x1_0000_0000 + n) by (nonlinear_arith)
            requires
                x < y,
                0 <= m < 0x1_0000_0000,
                0 <= n < 0x1_0000_0000,
        ;
    }
}

/// The UTC calendar day that holds second `secs` (floor division).
pub open spec fn day_of_secs(secs: int) -> int {
    secs / (SECS_PER_DAY as int)
}

proof fn lemma_day_shift(s: int)
    requires
        MIN_UTC_SECS <= s,
    ensures
        (s - MIN_UTC_SECS) / 86400 + MIN_UTC_DAY == s / 86400,
{
    let k: int = (s - MIN_UTC_SECS) / 86400;
    let r: int = (s - MIN_UTC_SECS) % 86400;
    assert(s - MIN_UTC_SECS == k * 86400 + r && 0 <= r < 86400) by (nonlinear_arith)
        requires
            s - MIN_UTC_SECS >= 0,
            k == (s - MIN_UTC_SECS) / 86400,
            r == (s - MIN_UTC_SECS) % 86400,
    ;
    assert(s == (k + MIN_UTC_DAY) * 86400 + r) by (nonlinear_arith)
        requires
            s - MIN_UTC_SECS == k * 86400 + r,
            MIN_UTC_SECS == MIN_UTC_DAY * 86400,
    ;
    vstd::arithmetic::div_mod::lemma_fundamental_div_mod_converse(s, 86400, k + MIN_UTC_DAY, r);
}

/// The start of yesterday in UTC, as seen at `now`.
pub open spec fn cutoff_secs(now: Timestamp) -> int {
    (now.day() - 1) * SECS_PER_DAY
}

/// `date` falls on a UTC calendar day before yesterday, as seen at `now`.
pub open spec fn before_yesterday(date: Timestamp, now: Timestamp) -> bool {
    date.day() < now.day() - 1
}

/// Whether `date` lies on a UTC calendar day before yesterday, where today is
/// the calendar day of `now`.
pub fn is_yesterday_before_at(date: &Timestamp, now: &Timestamp) -> (r: bool)
    requires
        date.wf(),
        now.wf(),
    ensures
        r == before_yesterday(*date, *now),
{
    let today: i64 = now.utc_day();
    let yesterday: i64 = today - 1;
    date.utc_day() < yesterday
}

/// Whether `date` lies on a UTC calendar day before yesterday, where today
/// is read from the system clock.
pub fn is_yesterday_before(date: &Timestamp) -> (r: bool)
    requires
        date.wf(),
    ensures
        exists|now: Timestamp| now.wf() && r == before_yesterday(*date, now),
{
    let now = utc_now();
    is_yesterday_before_at(date, &now)
}

/// The first second of yesterday in UTC, as seen at `now`.
pub fn retention_cutoff(now: &Timestamp) -> (r: Timestamp)
    requires
        now.wf(),
    ensures
        r.secs == cutoff_secs(*now),
        r.nanos == 0,
{
    let today: i64 = now.utc_day();
    Timestamp { secs: (today - 1) * SECS_PER_DAY, nanos: 0 }
}

/// The calendar rule and the cutoff agree: an instant is before yesterday
/// exactly when it is earlier than the first second of yesterday.
pub proof fn lemma_before_yesterday_is_before_cutoff(date: Timestamp, now: Timestamp)
    requires
        date.wf(),
        now.wf(),
    ensures
        before_yesterday(date, now) <==> date.secs < cutoff_secs(now),
{
    let d: int = date.secs / 86400;
    let n: int = now.day();
    assert(d * 86400 <= date.secs < d * 86400 + 86400) by (nonlinear_arith)
        requires
            d == date.secs / 86400,
    ;
    if d < n - 1 {
        assert(d * 86400 + 86400 <= (n - 1) * 86400) by (nonlinear_arith)
            requires
                d < n - 1,
        ;
    } else {
        assert((n - 1) * 86400 <= d * 86400) by (nonlinear_arith)
            requires
                d >= n - 1,
        ;
    }
}

/// The boundary is the calendar day, not a rolling window: the last second
/// of yesterday and the first seconds of today are kept, while the start of
/// the day before yesterday is already stale.
pub proof fn lemma_cutoff_is_calendar_based(now: Timestamp)
    requires
        now.wf(),
        MIN_UTC_SECS + 2 * SECS_PER_DAY <= now.secs <= MAX_UTC_SECS - SECS_PER_DAY,
    ensures
        ({
            let today_start = now.day() * SECS_PER_DAY;
            &&& !before_yesterday(Timestamp { secs: (today_start - 1) as i64, nanos: 0 }, now)
            &&& before_yesterday(
                Timestamp { secs: (today_start - 2 * SECS_PER_DAY) as i64, nanos: 0 },
                now,
            )
            &&& !before_yesterday(Timestamp { secs: (today_start + 1) as i64, nanos: 0 }, now)
        }),
{
    let n: int = now.day();
    let t: int = n * 86400;
    assert(t <= now.secs < t + 86400) by (nonlinear_arith)
        requires
            n == now.secs / 86400,
            t == n * 86400,
    ;
    vstd::arithmetic::div_mod::lemma_fundamental_div_mod_converse(t - 1, 86400, n - 1, 86399);
    vstd::arithmetic::div_mod::lemma_fundamental_div_mod_converse(
        t - 2 * 86400,
        86400,
        n - 2,
        0,
    );
    vstd::arithmetic::div_mod::lemma_fundamental_div_mod_converse(t + 1, 86400, n, 1);
}

/// Relies on chrono's `From<SystemTime> for DateTime<Utc>`: the instant the
/// system clock reads, before or after the epoch, with a fraction under one
/// second. Any `DateTime` lies in chrono's range, which holds every instant
/// a system clock can read.
#[verifier::external_body]
pub(crate) fn utc_now() -> (r: Timestamp)
    ensures
        r.wf(),
        r.nanos < 1_000_000_000,
{
    let now: chrono::DateTime<chrono::Utc> = std::time::SystemTime::now().into();
    Timestamp { secs: now.timestamp(), nanos: now.timestamp_subsec_nanos() }
}

/// Calendar fields of a UTC instant at second precision.
#[derive(Clone, Copy, Debug, PartialEq, Eq, Structural)]
pub struct CivilTime {
    pub year: i32,
    pub month: u32,
    pub day: u32,
    pub hour: u32,
    pub minute: u32,
    pub second: u32,
}

impl CivilTime {
    /// Each field lies in its calendar range (the year in chrono's range).
    pub open spec fn wf(self) -> bool {
        &&& -262143 <= self.year <= 262142
        &&& 1 <= self.month <= 12
        &&& 1 <= self.day <= 31
        &&& self.hour < 24
        &&& self.minute < 60
        &&& self.second < 60
    }

    pub open spec fn fields(self) -> (int, int, int, int, int, int) {
        (
            self.year as int,
            self.month as int,
            self.day as int,
            self.hour as int,
            self.minute as int,
            self.second as int,
        )
    }
}

/// The instant that chrono parses from an RFC 3339 text, as seconds and
/// fraction, or `None` where chrono rejects the text.
pub uninterp spec fn rfc3339_instant(text: Seq<char>) -> Option<(int, int)>;

/// Relies on chrono's `DateTime::parse_from_rfc3339` and `timestamp`: the
/// instant that an RFC 3339 text denotes, converted to UTC. The grammar has
/// a four-digit year and an offset under a day, so every instant it gives
/// lies in chrono's range.
#[verifier::external_body]
pub(crate) fn parse_rfc3339(text: &str) -> (r: Option<Timestamp>)
    ensures
        r is Some <==> rfc3339_instant(text@) is Some,
        r matches Some(t) ==> t.wf() && rfc3339_instant(text@) == Some(
            (t.secs as int, t.nanos as int),
        ),
{
    match chrono::DateTime::parse_from_rfc3339(text) {
        Ok(d) => Some(Timestamp { secs: d.timestamp(), nanos: d.timestamp_subsec_nanos() }),
        Err(_) => None,
    }
}

/// The proleptic Gregorian calendar fields of a UTC instant, as chrono
/// computes them: (year, month, day, hour, minute, second).
pub uninterp spec fn utc_calendar_of(secs: int, nanos: int) -> (int, int, int, int, int, int);

/// Relies on chrono's `DateTime::from_timestamp` and its `Datelike` and
/// `Timelike` accessors: the calendar fields of an instant in chrono's range,
/// each within its documented range. A leap second reads as second 59.
#[verifier::external_body]
pub(crate) fn utc_calendar(t: &Timestamp) -> (r: CivilTime)
    requires
        t.wf(),
    ensures
        r.wf(),
        r.fields() == utc_calendar_of(t.secs as int, t.nanos as int),
{
    let d = chrono::DateTime::from_timestamp(t.secs, t.nanos).unwrap();
    CivilTime {
        year: d.year(),
        month: d.month(),
        day: d.day(),
        hour: d.hour(),
        minute: d.minute(),
        second: d.second(),
    }
}

} // verus!
