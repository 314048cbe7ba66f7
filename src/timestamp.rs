//! Points in time, and the reading of timestamp text.
use chrono::DateTime;
use chrono::FixedOffset;
use vstd::prelude::*;

verus! {

/// A point in time: whole seconds since 1970-01-01T00:00:00Z and the
/// nanoseconds past that second (above 999,999,999 only within a leap second).
#[derive(Clone, Copy, Debug, PartialEq, Eq, Structural)]
pub struct Instant {
    pub secs: i64,
    pub nanos: u32,
}

/// `a` lies strictly before `b`.
pub open spec fn earlier(a: Instant, b: Instant) -> bool {
    a.secs < b.secs || (a.secs == b.secs && a.nanos < b.nanos)
}

impl Instant {
    /// Whether `self` lies strictly before `other`.
    pub fn is_before(&self, other: &Instant) -> (r: bool)
        ensures
            r == earlier(*self, *other),
    {
        self.secs < other.secs || (self.secs == other.secs && self.nanos < other.nanos)
    }
}

/// A timestamp as it was written: the instant it names, and the offset from
/// UTC, in seconds, that its text carried.
#[derive(Clone, Copy, Debug, PartialEq, Eq, Structural)]
pub struct Timestamp {
    pub secs: i64,
    pub nanos: u32,
    pub offset_secs: i32,
}

/// Text that could not be read as a timestamp.
#[derive(Clone, Debug)]
pub struct TimestampError {
    pub input: String,
}

#[verifier::external_type_specification]
#[verifier::external_body]
pub struct ExParseError(chrono::ParseError);

/// What `DateTime::parse_from_rfc3339` reads from a text, if anything.
pub uninterp spec fn rfc3339_reading(s: Seq<char>) -> Option<Timestamp>;

/// What `DateTime::parse_from_str` reads from a text in a format, if anything.
pub uninterp spec fn format_reading(s: Seq<char>, fmt: Seq<char>) -> Option<Timestamp>;

/// The text that `DateTime::to_rfc3339` writes for an instant at an offset.
pub uninterp spec fn rfc3339_text(secs: i64, nanos: u32, offset_secs: i32) -> Seq<char>;

/// Relies on `DateTime::parse_from_rfc3339`, read through `timestamp`,
/// `timestamp_subsec_nanos` and the offset's `local_minus_utc`.
#[verifier::external_body]
fn chrono_parse_rfc3339(s: &str) -> (r: Result<Timestamp, chrono::ParseError>)
    ensures
        r matches Ok(t) ==> rfc3339_reading(s@) == Some(t),
        r is Err ==> rfc3339_reading(s@) is None,
{
    match DateTime::parse_from_rfc3339(s) {
        Ok(dt) => Ok(Timestamp {
            secs: dt.timestamp(),
            nanos: dt.timestamp_subsec_nanos(),
            offset_secs: dt.offset().local_minus_utc(),
        }),
        Err(e) => Err(e),
    }
}

/// Relies on `DateTime::parse_from_str`, read as in `chrono_parse_rfc3339`.
#[verifier::external_body]
fn chrono_parse_format(s: &str, fmt: &str) -> (r: Result<Timestamp, chrono::ParseError>)
    ensures
        r matches Ok(t) ==> format_reading(s@, fmt@) == Some(t),
        r is Err ==> format_reading(s@, fmt@) is None,
{
    match DateTime::parse_from_str(s, fmt) {
        Ok(dt) => Ok(Timestamp {
            secs: dt.timestamp(),
            nanos: dt.timestamp_subsec_nanos(),
            offset_secs: dt.offset().local_minus_utc(),
        }),
        Err(e) => Err(e),
    }
}

/// Relies on `DateTime::to_rfc3339`, on the value that `DateTime::from_timestamp`
/// and `FixedOffset::east_opt` build; empty where they build none.
#[verifier::external_body]
fn chrono_rfc3339(secs: i64, nanos: u32, offset_secs: i32) -> (r: String)
    ensures
        r@ == rfc3339_text(secs, nanos, offset_secs),
{
    match (DateTime::from_timestamp(secs, nanos), FixedOffset::east_opt(offset_secs)) {
        (Some(dt), Some(offset)) => dt.with_timezone(&offset).to_rfc3339(),
        _ => String::new(),
    }
}

/// The format tried when a text is not RFC 3339: an offset written `+HHMM`.
pub open spec fn compact_offset_format() -> Seq<char> {
    "%Y-%m-%dT%H:%M:%S%z"@
}

/// What a timestamp text reads as: RFC 3339 first, else the compact offset form.
pub open spec fn timestamp_reading(s: Seq<char>) -> Option<Timestamp> {
    match rfc3339_reading(s) {
        Some(t) => Some(t),
        None => format_reading(s, compact_offset_format()),
    }
}

/// Reads an RFC 3339 timestamp, also taking the `+0000` form of an offset
/// that some services write in place of `+00:00`.
pub fn parse_timestamp(s: &str) -> (r: Result<Timestamp, TimestampError>)
    ensures
        r matches Ok(t) ==> timestamp_reading(s@) == Some(t),
        r matches Err(e) ==> timestamp_reading(s@) is None && e.input@ == s@,
{
    match chrono_parse_rfc3339(s) {
        Ok(t) => Ok(t),
        Err(_) => match chrono_parse_format(s, "%Y-%m-%dT%H:%M:%S%z") {
            Ok(t) => Ok(t),
            Err(_) => Err(TimestampError { input: s.to_owned() }),
        },
    }
}

impl Timestamp {
    /// The instant this timestamp names.
    pub fn instant(&self) -> (r: Instant)
        ensures
            r == (Instant { secs: self.secs, nanos: self.nanos }),
    {
        Instant { secs: self.secs, nanos: self.nanos }
    }

    /// The RFC 3339 text of this timestamp, at its own offset.
    pub fn to_rfc3339(&self) -> (r: String)
        ensures
            r@ == rfc3339_text(self.secs, self.nanos, self.offset_secs),
    {
        chrono_rfc3339(self.secs, self.nanos, self.offset_secs)
    }
}

} // verus!
