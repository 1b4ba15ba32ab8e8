//! Publication instants, parsed from RFC 3339 text by chrono.

use vstd::prelude::*;

use chrono::{DateTime, FixedOffset};

verus! {

/// A parsed publication instant: the UTC instant (seconds since the Unix
/// epoch and the sub-second nanoseconds) and chrono's RFC 3339 rendering of it
/// in the offset it was written with.
pub struct Timestamp {
    pub secs: i64,
    pub nanos: u32,
    pub rfc3339: String,
}

/// The instant, offset rendering included, that `DateTime::parse_from_rfc3339`
/// gives for a text, as (seconds, sub-second nanoseconds, `to_rfc3339` text),
/// or `None` where it refuses the text.
pub uninterp spec fn rfc3339_instant(text: Seq<char>) -> Option<(i64, u32, Seq<char>)>;

/// The same for the relaxed RFC 3339 reading of `str::parse::<DateTime<FixedOffset>>`,
/// the one that serde uses for a `DateTime<FixedOffset>` field.
pub uninterp spec fn relaxed_instant(text: Seq<char>) -> Option<(i64, u32, Seq<char>)>;

/// The triple that a timestamp stands for.
pub open spec fn timestamp_parts(t: Timestamp) -> (i64, u32, Seq<char>) {
    (t.secs, t.nanos, t.rfc3339@)
}

/// The parts of an optional timestamp, as a parse result.
pub open spec fn parsed_parts(t: Option<Timestamp>) -> Option<(i64, u32, Seq<char>)> {
    match t {
        Some(t) => Some(timestamp_parts(t)),
        None => None,
    }
}

/// Calls `chrono::DateTime::parse_from_rfc3339` and, where it succeeds, takes
/// the instant apart with `timestamp`, `timestamp_subsec_nanos` and `to_rfc3339`.
/// The contract claims only that the result depends on the text alone.
#[verifier::external_body]
fn chrono_parse_rfc3339(text: &str) -> (r: Option<Timestamp>)
    ensures
        parsed_parts(r) == rfc3339_instant(text@),
{
    match DateTime::<FixedOffset>::parse_from_rfc3339(text) {
        Ok(dt) => Some(Timestamp { secs: dt.timestamp(), nanos: dt.timestamp_subsec_nanos(), rfc3339: dt.to_rfc3339() }),
        Err(_) => None,
    }
}

/// Calls `str::parse::<chrono::DateTime<FixedOffset>>` (chrono's relaxed RFC 3339
/// reader) and takes the instant apart as above. The contract claims only that
/// the result depends on the text alone.
#[verifier::external_body]
fn chrono_parse_relaxed(text: &str) -> (r: Option<Timestamp>)
    ensures
        parsed_parts(r) == relaxed_instant(text@),
{
    match text.parse::<DateTime<FixedOffset>>() {
        Ok(dt) => Some(Timestamp { secs: dt.timestamp(), nanos: dt.timestamp_subsec_nanos(), rfc3339: dt.to_rfc3339() }),
        Err(_) => None,
    }
}

impl Timestamp {
    /// Parses a strict RFC 3339 date-time (the form of an Atom `published` element).
    pub fn parse_rfc3339(text: &str) -> (r: Option<Timestamp>)
        ensures
            parsed_parts(r) == rfc3339_instant(text@),
    {
        chrono_parse_rfc3339(text)
    }

    /// Parses a date-time as serde reads a `DateTime<FixedOffset>` field.
    pub fn parse_relaxed(text: &str) -> (r: Option<Timestamp>)
        ensures
            parsed_parts(r) == relaxed_instant(text@),
    {
        chrono_parse_relaxed(text)
    }
}

/// The order of `Option<DateTime<FixedOffset>>`: no date first, then by instant.
pub open spec fn published_le(a: Option<Timestamp>, b: Option<Timestamp>) -> bool {
    match (a, b) {
        (None, _) => true,
        (Some(_), None) => false,
        (Some(x), Some(y)) => x.secs < y.secs || (x.secs == y.secs && x.nanos <= y.nanos),
    }
}

/// Compares two optional publication instants in that order.
pub fn published_at_most(a: &Option<Timestamp>, b: &Option<Timestamp>) -> (r: bool)
    ensures
        r == published_le(*a, *b),
{
    match (a, b) {
        (None, _) => true,
        (Some(_), None) => false,
        (Some(x), Some(y)) => x.secs < y.secs || (x.secs == y.secs && x.nanos <= y.nanos),
    }
}

/// Undated items come first; dated ones go by UTC instant, seconds first,
/// then nanoseconds.
pub proof fn lemma_published_order_is_by_instant(a: Timestamp, b: Timestamp, x: Option<Timestamp>)
    ensures
        published_le(None, x),
        !published_le(Some(a), None),
        published_le(Some(a), Some(b)) <==> a.secs < b.secs || (a.secs == b.secs && a.nanos <= b.nanos),
{
}

/// The order is total and transitive.
pub proof fn lemma_published_order(a: Option<Timestamp>, b: Option<Timestamp>, c: Option<Timestamp>)
    ensures
        published_le(a, b) || published_le(b, a),
        published_le(a, b) && published_le(b, c) ==> published_le(a, c),
        published_le(a, a),
{
}

} // verus!
