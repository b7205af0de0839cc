//! `--time-style` formatting for mtime.
//!
//! - Default (`TimeStyle::Asctime`): `Wed Apr 15 02:34:56 2026` (24 chars,
//!   matches Ruby's `Time#asctime`).
//! - `TimeStyle::Custom(fmt)` (set via `--time-style=+FORMAT`): `fmt` is a
//!   strftime pattern handed to jiff.

use std::fmt::Write;

use vstd::prelude::*;

use crate::text::{chars_of, string_of};

verus! {

/// How modification times are rendered.
#[derive(Debug, Clone)]
pub enum TimeStyle {
    Asctime,
    Custom(String),
}

impl Default for TimeStyle {
    fn default() -> (r: Self)
        ensures
            r is Asctime,
    {
        TimeStyle::Asctime
    }
}

/// How old a modification time is relative to now.
#[derive(Debug, Clone, Copy, PartialEq, Eq, Structural)]
pub enum AgeBucket {
    /// < 1 hour ago
    HourOld,
    /// < 24 hours ago
    DayOld,
    /// older
    Old,
}

/// A point in time as the system clock reports it: whole seconds since the
/// Unix epoch (negative before it) plus a nanosecond part.
#[derive(Debug, Clone, Copy, PartialEq, Eq, Structural)]
pub struct SysTime {
    pub secs: i64,
    pub nanos: u32,
}

impl SysTime {
    /// Nanosecond part is below one second.
    pub open spec fn wf(self) -> bool {
        self.nanos < 1_000_000_000
    }

    /// Nanoseconds since the Unix epoch.
    pub open spec fn total_nanos(self) -> int {
        self.secs * 1_000_000_000 + self.nanos
    }
}

/// Whole seconds elapsed from `mtime` to `now`, zero when `mtime` is later
/// (as `now.duration_since(mtime).unwrap_or(ZERO).as_secs()`).
pub open spec fn elapsed_secs(mtime: SysTime, now: SysTime) -> int {
    let d = now.total_nanos() - mtime.total_nanos();
    if d <= 0 { 0 } else { d / 1_000_000_000 }
}

/// The age bucket for an elapsed time in seconds.
pub open spec fn bucket_for(secs: int) -> AgeBucket {
    if secs < 60 * 60 {
        AgeBucket::HourOld
    } else if secs < 24 * 60 * 60 {
        AgeBucket::DayOld
    } else {
        AgeBucket::Old
    }
}

impl TimeStyle {
    /// Parse a `--time-style=...` argument. Values starting with `+` are
    /// strftime patterns; everything else maps to asctime.
    pub fn parse(arg: &str) -> (r: Self)
        ensures
            arg@.len() > 0 && arg@[0] == '+' ==> (r matches TimeStyle::Custom(f) && f@
                == arg@.drop_first()),
            !(arg@.len() > 0 && arg@[0] == '+') ==> r is Asctime,
    {
        let cs = chars_of(arg);
        if cs.len() > 0 && cs[0] == '+' {
            let rest = string_of(&cs.as_slice()[1..cs.len()]);
            assert(cs@.subrange(1, cs@.len() as int) =~= arg@.drop_first());
            TimeStyle::Custom(rest)
        } else {
            TimeStyle::Asctime
        }
    }
}

/// Why an mtime could not be formatted.
#[derive(Debug, Clone, Copy, PartialEq, Eq, Structural)]
pub enum TimeFormatError {
    /// The time lies before the Unix epoch.
    BeforeEpoch,
    /// The time is outside the range jiff can represent.
    OutOfRange,
    /// jiff could not render the time with the requested pattern.
    Unformattable,
}

impl TimeFormatError {
    /// Human-readable description of the error.
    pub fn message(&self) -> (r: String)
        ensures
            r@.len() > 0,
    {
        let s = match self {
            TimeFormatError::BeforeEpoch => "mtime before unix epoch",
            TimeFormatError::OutOfRange => "invalid timestamp",
            TimeFormatError::Unformattable => "invalid time format",
        };
        proof {
            reveal_strlit("mtime before unix epoch");
            reveal_strlit("invalid timestamp");
            reveal_strlit("invalid time format");
        }
        crate::text::owned(s)
    }
}

#[verifier::external_type_specification]
#[verifier::external_body]
pub struct ExTimestamp(jiff::Timestamp);

/// Whether `jiff::Timestamp::new(secs, nanos)` accepts its arguments: the
/// seconds lie within jiff's range (years -9999 to 9999, narrowed on each
/// side by the largest time zone offset, 25:59:59), the nanoseconds within
/// ±999,999,999, and the earliest second takes no negative nanoseconds.
pub open spec fn jiff_timestamp_valid(secs: i64, nanos: i32) -> bool {
    &&& -377705023201 <= secs <= 253402207200
    &&& -999_999_999 <= nanos <= 999_999_999
    &&& !(secs == -377705023201 && nanos < 0)
}

/// `jiff::Timestamp::new`: succeeds exactly on the arguments its range
/// checks (in jiff-core) accept.
#[verifier::external_body]
fn timestamp_new(secs: i64, nanos: i32) -> (r: Option<jiff::Timestamp>)
    ensures
        r.is_some() == jiff_timestamp_valid(secs, nanos),
{
    jiff::Timestamp::new(secs, nanos).ok()
}

/// Renders `ts` in the system time zone with the strftime pattern `fmt`
/// (`ts.to_zoned(TimeZone::system()).strftime(fmt)`). The result depends on
/// the machine's time zone, so the contract states nothing of it; `None`
/// when jiff reports the pattern as unrenderable.
#[verifier::external_body]
fn strftime_system_zone(ts: &jiff::Timestamp, fmt: &str) -> (r: Option<String>) {
    let zoned = ts.to_zoned(jiff::tz::TimeZone::system());
    let mut out = String::new();
    match write!(out, "{}", zoned.strftime(fmt)) {
        Ok(()) => Some(out),
        Err(_) => None,
    }
}

/// The strftime pattern of a time style: asctime's
/// `%a %b %e %H:%M:%S %Y`, or the custom pattern as given.
pub open spec fn pattern_of(style: TimeStyle) -> Seq<char> {
    match style {
        TimeStyle::Asctime => "%a %b %e %H:%M:%S %Y"@,
        TimeStyle::Custom(s) => s@,
    }
}

/// The strftime pattern `format_mtime` hands to jiff for `style`.
pub fn time_pattern(style: &TimeStyle) -> (r: &str)
    ensures
        r@ == pattern_of(*style),
{
    match style {
        TimeStyle::Asctime => "%a %b %e %H:%M:%S %Y",
        TimeStyle::Custom(s) => s.as_str(),
    }
}

/// Formats `mtime` for the long listing in the system time zone, with the
/// pattern `time_pattern` gives for `style`.
///
/// Fails with `BeforeEpoch` for times before the Unix epoch and with
/// `OutOfRange` where jiff cannot represent the instant.
pub fn format_mtime(mtime: SysTime, style: &TimeStyle) -> (r: Result<String, TimeFormatError>)
    requires
        mtime.wf(),
    ensures
        mtime.secs < 0 ==> (r matches Err(e) && e == TimeFormatError::BeforeEpoch),
        mtime.secs >= 0 && !jiff_timestamp_valid(mtime.secs, mtime.nanos as i32) ==> (r matches Err(
            e,
        ) && e == TimeFormatError::OutOfRange),
        mtime.secs >= 0 && jiff_timestamp_valid(mtime.secs, mtime.nanos as i32) ==> (r matches Err(
            e,
        ) ==> e == TimeFormatError::Unformattable),
{
    if mtime.secs < 0 {
        return Err(TimeFormatError::BeforeEpoch);
    }
    let ts = match timestamp_new(mtime.secs, mtime.nanos as i32) {
        Some(ts) => ts,
        None => return Err(TimeFormatError::OutOfRange),
    };
    match strftime_system_zone(&ts, time_pattern(style)) {
        Some(out) => Ok(out),
        None => Err(TimeFormatError::Unformattable),
    }
}

/// Classifies the age of `mtime` relative to `now`: under an hour, under a
/// day, or older. Times in the future count as zero seconds old.
pub fn age_bucket(mtime: SysTime, now: SysTime) -> (r: AgeBucket)
    requires
        mtime.wf(),
        now.wf(),
    ensures
        r == bucket_for(elapsed_secs(mtime, now)),
{
    let m: i128 = mtime.secs as i128 * 1_000_000_000 + mtime.nanos as i128;
    let n: i128 = now.secs as i128 * 1_000_000_000 + now.nanos as i128;
    let secs: i128 = if n - m <= 0 { 0 } else { (n - m) / 1_000_000_000 };
    if secs < 60 * 60 {
        AgeBucket::HourOld
    } else if secs < 24 * 60 * 60 {
        AgeBucket::DayOld
    } else {
        AgeBucket::Old
    }
}

} // verus!
