use vstd::prelude::*;

verus! {

/// An absolute instant on the UTC timeline, in milliseconds since the Unix
/// epoch.
#[derive(Clone, Copy, PartialEq, Eq, Structural, Debug)]
pub struct UtcInstant {
    pub millis: i64,
}

/// What the RFC 3339 parser makes of a string: `None` when the string is not
/// a valid timezone-qualified RFC 3339 date-time, and otherwise the absolute
/// UTC instant it denotes, in milliseconds since the Unix epoch. The outcome
/// depends on the characters of the string alone.
pub uninterp spec fn rfc3339_utc_millis(s: Seq<char>) -> Option<i64>;

/// Parsing is deterministic: two parses of the same timestamp string denote
/// the same UTC instant.
pub proof fn lemma_parse_rfc3339_deterministic(s: Seq<char>, m1: i64, m2: i64)
    requires
        rfc3339_utc_millis(s) == Some(m1),
        rfc3339_utc_millis(s) == Some(m2),
    ensures
        m1 == m2,
{
}

/// Relies on chrono's `DateTime::parse_from_rfc3339`, `with_timezone` and
/// `timestamp_millis`: parses a timezone-qualified RFC 3339 date-time string
/// and converts the result to UTC. A string lacking an offset, or otherwise
/// malformed, is rejected, and the error carries chrono's parse diagnostic.
#[verifier::external_body]
pub(crate) fn parse_rfc3339_utc(s: &str) -> (r: Result<i64, String>)
    ensures
        match r {
            Ok(m) => rfc3339_utc_millis(s@) == Some(m),
            Err(_) => rfc3339_utc_millis(s@) is None,
        },
{
    match chrono::DateTime::parse_from_rfc3339(s) {
        Ok(dt) => Ok(dt.with_timezone(&chrono::Utc).timestamp_millis()),
        Err(e) => Err(format!("{}", e)),
    }
}

} // verus!
