//! Timestamps. Record and payout times arrive as RFC 3339 strings; the
//! pipeline works with them as epoch milliseconds.

use vstd::prelude::*;

use crate::errors::JobError;

verus! {

/// Epoch milliseconds denoted by an RFC 3339 string, or `None` where
/// the string is not valid RFC 3339. Parsing depends on the characters
/// alone.
pub uninterp spec fn rfc3339_millis_of(s: Seq<char>) -> Option<i64>;

/// Relies on chrono's `DateTime::parse_from_rfc3339`, which parses all
/// valid RFC 3339 date-and-time strings and nothing else; the result is
/// the denoted instant as epoch milliseconds.
#[verifier::external_body]
pub(crate) fn parse_rfc3339_millis(s: &str) -> (r: Option<i64>)
    ensures
        r == rfc3339_millis_of(s@),
{
    match chrono::DateTime::parse_from_rfc3339(s) {
        Ok(dt) => Some(dt.timestamp_millis()),
        Err(_) => None,
    }
}

/// Parses a record's RFC 3339 timestamp; a malformed one is a database
/// error, as the rows it would go into cannot be written.
pub fn parse_datetime(datetime_str: &str) -> (r: Result<i64, JobError>)
    ensures
        match r {
            Ok(t) => rfc3339_millis_of(datetime_str@) == Some(t),
            Err(e) => rfc3339_millis_of(datetime_str@) is None && e is Database,
        },
{
    match parse_rfc3339_millis(datetime_str) {
        Some(t) => Ok(t),
        None => Err(
            JobError::Database(
                String::from_str("invalid datetime format: ").concat(datetime_str),
            ),
        ),
    }
}

} // verus!
