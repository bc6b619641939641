//! Date handling at the trusted boundary: RFC 3339 parsing and rendering
//! through the `time` crate, each a pure function of its arguments.

use vstd::prelude::*;

verus! {

/// The epoch seconds a string parses to under RFC 3339, if it parses.
pub uninterp spec fn rfc3339_epoch(s: Seq<char>) -> Option<int>;

/// The RFC 3339 rendering of an epoch second count at a UTC offset given
/// in minutes.
pub uninterp spec fn rfc3339_of(secs: int, offset_minutes: int) -> Seq<char>;

/// Relies on `time::OffsetDateTime::parse` with the RFC 3339 description:
/// whether a string parses, and to which epoch second, depends on its
/// characters alone.
#[verifier::external_body]
pub fn parse_rfc3339_epoch(s: &str) -> (r: Option<i64>)
    ensures
        rfc3339_epoch(s@) == (match r {
            Some(v) => Some(v as int),
            None => None::<int>,
        }),
{
    time::OffsetDateTime::parse(s, &time::format_description::well_known::Rfc3339).ok().map(
        |dt| dt.unix_timestamp(),
    )
}

/// Relies on `time::OffsetDateTime::from_unix_timestamp`,
/// `checked_to_offset` and the RFC 3339 formatter: the rendering,
/// including the fallbacks for out-of-range seconds or offsets, depends on
/// the two arguments alone.
#[verifier::external_body]
pub fn format_rfc3339(secs: i64, offset_minutes: i32) -> (r: String)
    ensures
        r@ == rfc3339_of(secs as int, offset_minutes as int),
{
    let offset = time::UtcOffset::from_whole_seconds(offset_minutes.saturating_mul(60)).unwrap_or(
        time::UtcOffset::UTC,
    );
    let utc = time::OffsetDateTime::from_unix_timestamp(secs).unwrap_or(
        time::OffsetDateTime::UNIX_EPOCH,
    );
    utc.checked_to_offset(offset).unwrap_or(utc).format(
        &time::format_description::well_known::Rfc3339,
    ).unwrap_or_else(|_| String::from("1970-01-01T00:00:00Z"))
}

} // verus!
