//! Where identifiers and creation timestamps come from.

use vstd::prelude::*;

verus! {

/// The length of an identifier: 32 hexadecimal digits in five groups, with a
/// hyphen between two groups.
pub const ID_LENGTH: usize = 36;

/// The length of the shortest timestamp: date, `T`, time to the second, and
/// the offset from UTC.
pub const MIN_TIMESTAMP_LENGTH: usize = 25;

/// A fresh random identifier in text form.
///
/// Trusted: calls `uuid::Uuid::new_v4` and renders the result with its
/// `Display` impl, which writes the hyphenated lower-case form. The contract
/// claims the length of that form and nothing about the digits, which are
/// random. The call panics where the operating system cannot supply random
/// bytes.
#[verifier::external_body]
pub(crate) fn fresh_id() -> (id: String)
    ensures
        id@.len() == ID_LENGTH,
{
    uuid::Uuid::new_v4().to_string()
}

/// The current time in UTC as an RFC 3339 timestamp.
///
/// Trusted: calls `chrono::Utc::now` and renders the result with
/// `DateTime::to_rfc3339`. The contract claims only that the text is at least
/// as long as a timestamp without fractional seconds; what it says depends on
/// the clock. The call panics where the clock stands before 1970.
#[verifier::external_body]
pub(crate) fn current_timestamp() -> (timestamp: String)
    ensures
        timestamp@.len() >= MIN_TIMESTAMP_LENGTH,
{
    chrono::Utc::now().to_rfc3339()
}

} // verus!
