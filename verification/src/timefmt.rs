//! Rendering and reading of instants on the textual wire, which carries a
//! timestamp as an RFC 3339 / ISO 8601 string.
use vstd::prelude::*;

use crate::model::Timestamp;

verus! {

/// The RFC 3339 text that chrono renders for an instant; a function of the
/// two integers alone.
pub uninterp spec fn rfc3339_text_of(seconds: i64, nanos: i32) -> Seq<char>;

/// The instant that chrono reads from an RFC 3339 string, if any; a
/// function of the text alone.
pub uninterp spec fn rfc3339_parsed(s: Seq<char>) -> Option<Timestamp>;

/// The instant that the time crate reads from a full ISO 8601 string, if
/// any; a function of the text alone.
pub uninterp spec fn iso8601_parsed(s: Seq<char>) -> Option<Timestamp>;

/// Whether the RFC 3339 rendering of an instant reads back as the same
/// instant.
pub open spec fn rfc3339_round_trips(ts: Timestamp) -> bool {
    rfc3339_parsed(rfc3339_text_of(ts.seconds, ts.nanos)) == Some(ts)
}

/// Relies on chrono: Utc::timestamp_opt on an instant between the years 1
/// and 9999 is a single DateTime; DateTime::to_rfc3339 renders it as an
/// RFC 3339 string; and DateTime::parse_from_rfc3339 reads every RFC 3339
/// string back to the instant it denotes.
#[verifier::external_body]
pub fn format_rfc3339(ts: &Timestamp) -> (r: String)
    requires
        ts.wf(),
    ensures
        r@ == rfc3339_text_of(ts.seconds, ts.nanos),
        rfc3339_parsed(r@) == Some(*ts),
{
    let dt = chrono::TimeZone::timestamp_opt(&chrono::Utc, ts.seconds, ts.nanos as u32)
        .single()
        .expect("instant is within the RFC 3339 year range");
    dt.to_rfc3339()
}

/// Relies on chrono::DateTime::parse_from_rfc3339; the result depends on
/// the text alone.
#[verifier::external_body]
pub fn parse_rfc3339(s: &str) -> (r: Option<Timestamp>)
    ensures
        r == rfc3339_parsed(s@),
{
    match chrono::DateTime::parse_from_rfc3339(s) {
        Ok(dt) => {
            let utc = dt.with_timezone(&chrono::Utc);
            Some(Timestamp {
                seconds: chrono::DateTime::timestamp(&utc),
                nanos: chrono::DateTime::timestamp_subsec_nanos(&utc) as i32,
            })
        },
        Err(_) => None,
    }
}

/// Relies on time::OffsetDateTime::parse with the ISO 8601 well-known
/// format; the result depends on the text alone.
#[verifier::external_body]
pub fn parse_iso8601(s: &str) -> (r: Option<Timestamp>)
    ensures
        r == iso8601_parsed(s@),
{
    match time::OffsetDateTime::parse(
        s,
        &time::format_description::well_known::Iso8601::PARSING,
    ) {
        Ok(dt) => Some(Timestamp {
            seconds: dt.unix_timestamp(),
            nanos: dt.nanosecond() as i32,
        }),
        Err(_) => None,
    }
}

/// The instant a textual-wire timestamp string denotes: what chrono reads
/// as RFC 3339, or else what the time crate reads as full ISO 8601.
pub open spec fn spec_timestamp_from_text(s: Seq<char>) -> Option<Timestamp> {
    match rfc3339_parsed(s) {
        Some(ts) => Some(ts),
        None => iso8601_parsed(s),
    }
}

/// Reads a textual-wire timestamp: RFC 3339 first, full ISO 8601 second.
pub fn timestamp_from_text(s: &str) -> (r: Option<Timestamp>)
    ensures
        r == spec_timestamp_from_text(s@),
{
    match parse_rfc3339(s) {
        Some(ts) => Some(ts),
        None => parse_iso8601(s),
    }
}

} // verus!
