//! Shared primitives: resource identifiers and RFC 3339 timestamps.

use vstd::prelude::*;
use crate::uuid::Uuid;

verus! {

/// A resource identifier: a UUID.
pub type ResourceId = Uuid;

/// A fresh random version-4 resource identifier.
pub fn new_resource_id() -> (r: ResourceId)
    ensures
        (r@ >> 76u128) & 0xf == 4,
        (r@ >> 62u128) & 3 == 2,
{
    Uuid::new_v4()
}

/// An instant in UTC: whole seconds since the Unix epoch and the nanoseconds
/// past that second (above 999,999,999 only within a leap second, as
/// `chrono` represents it).
#[derive(Debug, Clone, Copy, PartialEq, Eq, Hash, Structural)]
pub struct Timestamp {
    /// Seconds since 1970-01-01T00:00:00Z.
    pub secs: i64,
    /// Nanoseconds past `secs`.
    pub nanos: u32,
}

/// A string that is not a timestamp `chrono` accepts.
#[derive(Debug, Clone, Copy, PartialEq, Eq, Structural)]
pub struct ParseTimestampError;

/// What `s.parse::<chrono::DateTime<chrono::Utc>>()` yields, as seconds and
/// nanoseconds.
pub uninterp spec fn spec_timestamp_parse(s: Seq<char>) -> Option<(i64, u32)>;

/// `s.parse::<chrono::DateTime<chrono::Utc>>()`, as `(timestamp(),
/// timestamp_subsec_nanos())`; `None` for chrono's error. Which texts chrono
/// accepts is left to the name `spec_timestamp_parse`; a chrono time keeps its
/// nanoseconds below 2,000,000,000 (a leap second's at most).
#[verifier::external_body]
fn chrono_parse_timestamp(s: &str) -> (r: Option<(i64, u32)>)
    ensures
        r == spec_timestamp_parse(s@),
        r matches Some(p) ==> p.1 < 2_000_000_000,
{
    match s.parse::<chrono::DateTime<chrono::Utc>>() {
        Ok(dt) => Some((dt.timestamp(), dt.timestamp_subsec_nanos())),
        Err(_) => None,
    }
}

/// What `chrono::DateTime::parse_from_rfc3339(s)` yields, in UTC, as seconds
/// and nanoseconds.
pub uninterp spec fn spec_rfc3339_parse(s: Seq<char>) -> Option<(i64, u32)>;

/// `chrono::DateTime::parse_from_rfc3339(s)` taken to UTC, as
/// `(timestamp(), timestamp_subsec_nanos())`; `None` for chrono's error.
/// Which texts it accepts is left to the name `spec_rfc3339_parse`; the
/// nanoseconds stay below 2,000,000,000.
#[verifier::external_body]
pub(crate) fn chrono_parse_rfc3339(s: &str) -> (r: Option<(i64, u32)>)
    ensures
        r == spec_rfc3339_parse(s@),
        r matches Some(p) ==> p.1 < 2_000_000_000,
{
    match chrono::DateTime::parse_from_rfc3339(s) {
        Ok(dt) => Some((dt.timestamp(), dt.timestamp_subsec_nanos())),
        Err(_) => None,
    }
}

/// The timestamp of a pair of seconds and nanoseconds.
pub open spec fn timestamp_of(p: (i64, u32)) -> Timestamp {
    Timestamp { secs: p.0, nanos: p.1 }
}

/// Parses a timestamp as `DateTime<Utc>`'s `FromStr` does (RFC 3339 and the
/// forms chrono accepts alongside it).
pub fn parse_timestamp(s: &str) -> (r: Result<Timestamp, ParseTimestampError>)
    ensures
        match r {
            Ok(t) => spec_timestamp_parse(s@) == Some((t.secs, t.nanos)),
            Err(_) => spec_timestamp_parse(s@) is None,
        },
        r matches Ok(t) ==> t.nanos < 2_000_000_000,
{
    match chrono_parse_timestamp(s) {
        Some((secs, nanos)) => Ok(Timestamp { secs, nanos }),
        None => Err(ParseTimestampError),
    }
}

/// Milliseconds since the epoch (`chrono`'s `timestamp_millis`: whole
/// seconds times 1000 plus the whole milliseconds of the nanoseconds).
pub open spec fn spec_millis(t: Timestamp) -> int {
    t.secs * 1000 + t.nanos / 1_000_000
}

impl Timestamp {
    /// Milliseconds since the epoch, as `chrono`'s `timestamp_millis` counts
    /// them.
    pub fn timestamp_millis(&self) -> (r: i64)
        requires
            i64::MIN <= spec_millis(*self) <= i64::MAX,
        ensures
            r == spec_millis(*self),
    {
        let ms = (self.nanos / 1_000_000) as i64;
        let s = self.secs as i128 * 1000 + ms as i128;
        s as i64
    }
}

} // verus!
