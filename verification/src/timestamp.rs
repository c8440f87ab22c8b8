//! RFC 3339 timestamps, read with the `time` crate, and the current time.
use vstd::prelude::*;

verus! {

/// The instant, in nanoseconds since the Unix epoch, that `time` reads an
/// RFC 3339 datetime as; `None` when it refuses the text.
pub uninterp spec fn rfc3339_instant(s: Seq<char>) -> Option<int>;

/// Calls `time::OffsetDateTime::parse` with the `Rfc3339` format and takes
/// `unix_timestamp_nanos` of the result. The claim is only that the result
/// is the named instant of the text, which depends on the text alone.
#[verifier::external_body]
pub(crate) fn parse_rfc3339_nanos(s: &str) -> (r: Option<i128>)
    ensures
        match r {
            Some(t) => rfc3339_instant(s@) == Some(t as int),
            None => rfc3339_instant(s@) is None,
        },
{
    match time::OffsetDateTime::parse(s, &time::format_description::well_known::Rfc3339) {
        Ok(t) => Some(t.unix_timestamp_nanos()),
        Err(_) => None,
    }
}

/// Calls `time::OffsetDateTime::now_utc`; nothing is claimed of the result.
#[verifier::external_body]
pub(crate) fn now_unix_nanos() -> (r: i128) {
    time::OffsetDateTime::now_utc().unix_timestamp_nanos()
}

} // verus!
