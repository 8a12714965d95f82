use vstd::prelude::*;

verus! {

/// The Unix time in milliseconds that chrono reads from an RFC 3339 date-time text,
/// or `None` when chrono does not accept the text.
pub uninterp spec fn rfc3339_to_millis(s: Seq<char>) -> Option<i64>;

/// `chrono::DateTime::parse_from_rfc3339` followed by `timestamp_millis`; its result
/// is named `rfc3339_to_millis`.
#[verifier::external_body]
pub fn rfc3339_millis(s: &str) -> (r: Option<i64>)
    ensures
        r == rfc3339_to_millis(s@),
{
    chrono::DateTime::parse_from_rfc3339(s).ok().map(|dt| dt.timestamp_millis())
}

/// Milliseconds of an optional timestamp text.
pub open spec fn opt_millis(s: Option<String>) -> Option<i64> {
    match s {
        Some(t) => rfc3339_to_millis(t@),
        None => None,
    }
}

} // verus!
