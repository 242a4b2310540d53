//! RFC-3339 timestamp conversion, through chrono.
//!
//! The store keys payments by nanoseconds since the Unix epoch; the wire
//! carries RFC-3339 text.  Rendering and reading that text is chrono's work:
//! the two functions here hand it plain values and state, over the two named
//! results below, only what chrono's documentation shows.

use vstd::prelude::*;

verus! {

/// The RFC-3339 text chrono renders for the instant `nanos` nanoseconds after
/// the Unix epoch.
pub uninterp spec fn rfc3339_bytes_of(nanos: i64) -> Seq<u8>;

/// The instant chrono reads from `s` as RFC-3339 text, in nanoseconds since
/// the Unix epoch; `None` where `s` is not such text or the instant does not
/// fit an `i64` of nanoseconds.
pub uninterp spec fn rfc3339_instant_of(s: Seq<u8>) -> Option<i64>;

/// Relies on chrono's `DateTime::from_timestamp_nanos` (total on `i64`) and
/// `DateTime::to_rfc3339`.  The rendered text depends on the instant alone and
/// is ASCII date-time punctuation, so it never holds a quote or a backslash;
/// chrono documents that `DateTime::parse_from_rfc3339` reads the same
/// instant back from it, and `timestamp_nanos_opt` then returns exactly the
/// nanoseconds the instant was built from.
#[verifier::external_body]
pub fn format_rfc3339(nanos: i64) -> (r: Vec<u8>)
    ensures
        r@ == rfc3339_bytes_of(nanos),
        forall|i: int| 0 <= i < r@.len() ==> r@[i] != 34 && r@[i] != 92,
        rfc3339_instant_of(r@) == Some(nanos),
{
    chrono::DateTime::from_timestamp_nanos(nanos).to_rfc3339().into_bytes()
}

/// Relies on chrono's `DateTime::parse_from_rfc3339` together with
/// `timestamp_nanos_opt` on its result: what is read depends on the text
/// alone, and both reject anything malformed or out of range.
#[verifier::external_body]
pub fn parse_rfc3339(s: &[u8]) -> (r: Option<i64>)
    ensures
        r == rfc3339_instant_of(s@),
{
    let text = match core::str::from_utf8(s) {
        Ok(t) => t,
        Err(_) => {
            return None;
        },
    };
    match chrono::DateTime::parse_from_rfc3339(text) {
        Ok(dt) => dt.timestamp_nanos_opt(),
        Err(_) => None,
    }
}

} // verus!
