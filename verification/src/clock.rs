//! Time as the library sees it: `std::time::Duration` and the `chrono` values
//! that the timer, the task list and the statistics carry or read.
//!
//! Apart from `utc_now`, `local_now` and `local_today`, which are verified,
//! and the spec functions with a body, everything in this file is trusted:
//! each item states what the outside code does, and nothing of it is proved.

use vstd::prelude::*;
use std::time::{Duration, Instant, SystemTime, UNIX_EPOCH};
use chrono::{DateTime, Local, NaiveDate, TimeDelta, Utc};

verus! {

/// An instant in UTC, as `chrono` keeps it. Verus cannot declare
/// `chrono::DateTime` itself (its parameter is bounded by a `chrono` trait),
/// so the value is held here, opaque; the library only carries it, compares
/// it through `chrono`, and reads the clock into it.
#[verifier::external_body]
pub struct UtcTime(pub DateTime<Utc>);

impl Clone for UtcTime {
    /// Copies the instant (`DateTime<Utc>` is `Copy`).
    #[verifier::external_body]
    fn clone(&self) -> (r: Self)
        ensures
            r == *self,
    {
        UtcTime(self.0)
    }
}

/// An instant in the local time zone, as `chrono` keeps it (held for the same
/// reason as [`UtcTime`]).
#[verifier::external_body]
pub struct LocalTime(pub DateTime<Local>);

#[verifier::external_type_specification]
#[verifier::external_body]
pub struct ExNaiveDate(NaiveDate);

#[verifier::external_type_specification]
#[verifier::external_body]
pub struct ExTimeDelta(TimeDelta);

#[verifier::external_type_specification]
#[verifier::external_body]
pub struct ExSystemTime(SystemTime);

#[verifier::external_type_specification]
#[verifier::external_body]
pub struct ExInstant(Instant);

/// What `Instant::duration_since` returns for `now` and `earlier`: the time
/// from `earlier` to `now`, or zero where `earlier` is the later one.
pub uninterp spec fn spec_instant_since(now: Instant, earlier: Instant) -> Duration;

/// `Instant::duration_since`. std documents that it saturates to zero
/// rather than panicking where `earlier` is later than `now`.
#[verifier::external_body]
pub(crate) fn instant_since(now: &Instant, earlier: &Instant) -> (d: Duration)
    ensures
        d == spec_instant_since(*now, *earlier),
{
    now.duration_since(*earlier)
}

/// What `Duration::as_nanos` returns for `d`: its whole length in nanoseconds.
pub uninterp spec fn duration_nanos(d: Duration) -> u128;

/// `Duration::as_nanos`.
#[verifier::external_body]
pub(crate) fn duration_as_nanos(d: Duration) -> (n: u128)
    ensures
        n == duration_nanos(d),
{
    d.as_nanos()
}

/// `Duration::new`: std documents that the duration lasts `secs` seconds and
/// `nanos` nanoseconds; with `nanos` under a second nothing carries into the
/// seconds, so the call cannot panic.
#[verifier::external_body]
pub(crate) fn duration_new(secs: u64, nanos: u32) -> (d: Duration)
    requires
        nanos < 1_000_000_000,
    ensures
        duration_nanos(d) == secs as int * 1_000_000_000 + nanos as int,
{
    Duration::new(secs, nanos)
}

/// What `DateTime::signed_duration_since` returns for `later` and `earlier`.
pub uninterp spec fn spec_duration_since(later: UtcTime, earlier: UtcTime) -> TimeDelta;

/// What `TimeDelta::num_seconds` returns: the delta's whole seconds, rounded
/// toward zero.
pub uninterp spec fn spec_num_seconds(delta: TimeDelta) -> i64;

/// `SystemTime::now`: a reading of the system clock. Nothing is promised of
/// the reading.
#[verifier::external_body]
pub(crate) fn system_now() -> SystemTime {
    SystemTime::now()
}

/// What `SystemTime::duration_since(UNIX_EPOCH)` gives for `t`: the time
/// since 1970-01-01 00:00 UTC, or `None` where std reports that `t` lies
/// before it.
pub uninterp spec fn spec_since_epoch(t: SystemTime) -> Option<Duration>;

/// `SystemTime::duration_since` with `UNIX_EPOCH`; the error (a time before
/// the epoch) becomes `None`. std documents that it does not panic.
#[verifier::external_body]
pub(crate) fn since_epoch(t: &SystemTime) -> (d: Option<Duration>)
    ensures
        d == spec_since_epoch(*t),
{
    t.duration_since(UNIX_EPOCH).ok()
}

/// What `DateTime::<Utc>::from_timestamp` gives for `secs` seconds and
/// `nanos` nanoseconds after 1970-01-01 00:00 UTC: the instant, or `None`
/// where it lies outside chrono's range or `nanos` is not a valid fraction.
pub uninterp spec fn spec_from_timestamp(secs: i64, nanos: u32) -> Option<UtcTime>;

/// `DateTime::<Utc>::from_timestamp`, which checks its range and returns
/// `None` rather than panicking.
#[verifier::external_body]
pub(crate) fn from_timestamp(secs: i64, nanos: u32) -> (t: Option<UtcTime>)
    ensures
        t == spec_from_timestamp(secs, nanos),
{
    DateTime::<Utc>::from_timestamp(secs, nanos).map(UtcTime)
}

/// Nanoseconds in a second.
const NANOS_IN_SEC: u128 = 1_000_000_000;

/// The instant that the system clock reading `clock` stands for: its whole
/// seconds and nanoseconds since 1970 handed to chrono, or `None` where the
/// reading lies before 1970, holds more seconds than an `i64`, or lies
/// beyond chrono's range.
pub open spec fn clock_reading(clock: SystemTime) -> Option<UtcTime> {
    match spec_since_epoch(clock) {
        Some(d) => if duration_nanos(d) / 1_000_000_000 <= i64::MAX {
            spec_from_timestamp(
                (duration_nanos(d) / 1_000_000_000) as i64,
                (duration_nanos(d) % 1_000_000_000) as u32,
            )
        } else {
            None
        },
        None => None,
    }
}

/// The current instant, read from the system clock the way `Utc::now` reads
/// it (whole seconds and nanoseconds since 1970), or `None` where the
/// reading cannot be held: a clock set before 1970 (where `Utc::now`
/// panics), or a reading beyond chrono's range.
pub fn utc_now() -> (t: Option<UtcTime>)
    ensures
        exists|clock: SystemTime| #[trigger] clock_reading(clock) == t,
{
    let clock = system_now();
    let t = match since_epoch(&clock) {
        Some(d) => {
            let n = duration_as_nanos(d);
            let secs = n / NANOS_IN_SEC;
            if secs > 9_223_372_036_854_775_807 {
                None
            } else {
                from_timestamp(secs as i64, (n % NANOS_IN_SEC) as u32)
            }
        },
        None => None,
    };
    assert(clock_reading(clock) == t);
    t
}

/// `DateTime::signed_duration_since`: chrono computes it from the two values
/// alone and never fails; between an instant and itself it is zero, which
/// `num_seconds` counts as no seconds.
#[verifier::external_body]
pub(crate) fn duration_since(later: &UtcTime, earlier: &UtcTime) -> (d: TimeDelta)
    ensures
        d == spec_duration_since(*later, *earlier),
        *later == *earlier ==> spec_num_seconds(d) == 0,
{
    later.0.signed_duration_since(earlier.0)
}

/// `TimeDelta::num_seconds`.
#[verifier::external_body]
pub(crate) fn num_seconds(delta: &TimeDelta) -> (s: i64)
    ensures
        s == spec_num_seconds(*delta),
{
    delta.num_seconds()
}

/// What `NaiveDate::format` with `"%Y-%m-%d"` writes for `d`.
pub uninterp spec fn spec_format_ymd(d: NaiveDate) -> Seq<char>;

/// The date of `t` on the local calendar, as `DateTime::date_naive` computes
/// it, or `None` where that date lies outside chrono's range (where
/// `date_naive` panics).
pub uninterp spec fn spec_local_date(t: LocalTime) -> Option<NaiveDate>;

/// What `NaiveDate::parse_from_str` with `"%Y-%m-%d"` gives for the text
/// `s`: the date, or `None` where chrono reports a parse error.
pub uninterp spec fn spec_parse_ymd(s: Seq<char>) -> Option<NaiveDate>;

/// `DateTime::with_timezone` with `Local`: the instant `t` on the local
/// clock. It depends on the system's time-zone settings, so nothing is
/// promised of the result. chrono looks the local offset up in the zone data
/// and `expect`s to find one (offset/local/unix.rs, offset/local/mod.rs);
/// zone data that names no local time for `t`, or an offset of a day or
/// more, would make it panic, and no argument can rule that out.
#[verifier::external_body]
pub(crate) fn to_local(t: &UtcTime) -> LocalTime {
    LocalTime(t.0.with_timezone(&Local))
}

/// The current instant on the local clock, read as `Local::now` reads it
/// (the UTC instant, then the local offset), or `None` where the clock
/// cannot be read into chrono's range (see [`utc_now`]).
pub fn local_now() -> (t: Option<LocalTime>)
    ensures
        exists|clock: SystemTime| (t is Some <==> #[trigger] clock_reading(clock) is Some),
{
    match utc_now() {
        Some(u) => Some(to_local(&u)),
        None => None,
    }
}

/// Whether `d` is the local date of some instant.
pub open spec fn is_local_date(d: NaiveDate) -> bool {
    exists|t: LocalTime| #[trigger] spec_local_date(t) == Some(d)
}

/// Today's date on the local calendar, read from the clock; `None` where
/// the clock cannot be read (see [`utc_now`]) or the local date lies outside
/// chrono's range.
pub fn local_today() -> (d: Option<NaiveDate>)
    ensures
        d matches Some(d) ==> is_local_date(d),
{
    match local_now() {
        Some(now) => local_date(&now),
        None => None,
    }
}

/// `NaiveDate::format` with `"%Y-%m-%d"`, written out to a `String`. The
/// pattern holds no item that can fail, so writing it out does not panic.
/// chrono's parser reads that text back to the same date: years 0 to 9999
/// are written with four digits and read back with up to four, other years
/// (all within `NaiveDate`'s range) are written and read with their sign
/// (format/formatting.rs `write_year`, format/parse.rs).
#[verifier::external_body]
pub(crate) fn format_ymd(d: &NaiveDate) -> (s: String)
    ensures
        s@ == spec_format_ymd(*d),
        spec_parse_ymd(s@) == Some(*d),
{
    d.format("%Y-%m-%d").to_string()
}

/// `DateTime::date_naive` without its panic. chrono computes it as the UTC
/// date-time shifted by the offset (`naive_local`), and `expect`s the shift
/// to stay within range; here the same shift is made with
/// `NaiveDateTime::checked_add_offset`, whose `None` is passed on, and the
/// date is taken from the result.
#[verifier::external_body]
pub(crate) fn local_date(t: &LocalTime) -> (d: Option<NaiveDate>)
    ensures
        d == spec_local_date(*t),
{
    t.0.naive_utc().checked_add_offset(*t.0.offset()).map(|local| local.date())
}

/// `NaiveDate::parse_from_str` with `"%Y-%m-%d"`; the parse error becomes
/// `None`.
#[verifier::external_body]
pub(crate) fn parse_ymd(s: &str) -> (d: Option<NaiveDate>)
    ensures
        d == spec_parse_ymd(s@),
{
    NaiveDate::parse_from_str(s, "%Y-%m-%d").ok()
}

/// What `a <= b` gives for two dates: chrono orders dates by time.
pub uninterp spec fn spec_date_le(a: NaiveDate, b: NaiveDate) -> bool;

/// `<=` on `NaiveDate` (derived from the date's packed year and day of the
/// year, so a date is no later than itself).
#[verifier::external_body]
pub(crate) fn date_le(a: &NaiveDate, b: &NaiveDate) -> (r: bool)
    ensures
        r == spec_date_le(*a, *b),
        *a == *b ==> r,
{
    *a <= *b
}

/// What `NaiveDate::checked_sub_signed` with `TimeDelta::days(days)` gives
/// for `d`: the date `days` days earlier, or `None` where it lies outside
/// chrono's range.
pub uninterp spec fn spec_days_before(d: NaiveDate, days: i64) -> Option<NaiveDate>;

/// `NaiveDate::checked_sub_signed` by `TimeDelta::days(days)`. `days` is
/// kept far inside the range `TimeDelta::days` accepts, so that cannot
/// panic; a date some days back is no later than `d`.
#[verifier::external_body]
pub(crate) fn days_before(d: &NaiveDate, days: i64) -> (r: Option<NaiveDate>)
    requires
        0 <= days <= 1_000_000,
    ensures
        r == spec_days_before(*d, days),
        r matches Some(e) ==> spec_date_le(e, *d),
{
    d.checked_sub_signed(TimeDelta::days(days))
}

} // verus!
