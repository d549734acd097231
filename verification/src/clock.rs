//! Times as `chrono` reads and writes them.
use crate::model::Timestamp;
use vstd::prelude::*;

verus! {

/// The RFC 3339 text of the instant `secs` seconds and `nanos` nanoseconds
/// after 1970-01-01T00:00:00Z, as `chrono` writes it, or `None` where
/// `chrono` has no such instant.
pub uninterp spec fn rfc3339_text(secs: i64, nanos: u32) -> Option<Seq<char>>;

/// The instant that `chrono` reads from a text, as seconds and nanoseconds
/// after 1970-01-01T00:00:00Z, or `None` where it reads none.
pub uninterp spec fn rfc3339_instant(text: Seq<char>) -> Option<(i64, u32)>;

/// `chrono::DateTime::to_rfc3339_opts` with `SecondsFormat::AutoSi` and `Z`
/// for UTC, on the value that `DateTime::from_timestamp` makes of the two
/// numbers; `None` where `from_timestamp` gives none. The text depends on the
/// two numbers alone and is named [`rfc3339_text`]; nothing else is claimed.
#[verifier::external_body]
pub(crate) fn format_time(time: Timestamp) -> (r: Option<String>)
    ensures
        match r {
            Some(text) => rfc3339_text(time.secs, time.nanos) == Some(text@),
            None => rfc3339_text(time.secs, time.nanos) is None,
        },
{
    match chrono::DateTime::from_timestamp(time.secs, time.nanos) {
        Some(instant) => Some(instant.to_rfc3339_opts(chrono::SecondsFormat::AutoSi, true)),
        None => None,
    }
}

/// `str::parse` to a `chrono::DateTime<chrono::Utc>`, handed back as what
/// `timestamp` and `timestamp_subsec_nanos` say of it; `None` where the text
/// does not parse. The result depends on the text alone and is named
/// [`rfc3339_instant`]; nothing else is claimed.
#[verifier::external_body]
pub(crate) fn parse_time(text: &str) -> (r: Option<Timestamp>)
    ensures
        match r {
            Some(time) => rfc3339_instant(text@) == Some((time.secs, time.nanos)),
            None => rfc3339_instant(text@) is None,
        },
{
    match text.parse::<chrono::DateTime<chrono::Utc>>() {
        Ok(instant) => Some(
            Timestamp { secs: instant.timestamp(), nanos: instant.timestamp_subsec_nanos() },
        ),
        Err(_) => None,
    }
}

/// `chrono::Utc::now`, as seconds and nanoseconds. Nothing is known of the
/// time that comes back.
#[verifier::external_body]
pub(crate) fn now() -> Timestamp {
    let instant = chrono::Utc::now();
    Timestamp { secs: instant.timestamp(), nanos: instant.timestamp_subsec_nanos() }
}

} // verus!
