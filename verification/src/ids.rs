//! Identifiers and timestamps.
//!
//! Every notebook, snippet, tag and chat session is keyed by a UUID, which
//! the library holds as its 128-bit value. Times are milliseconds since the
//! Unix epoch.
use vstd::prelude::*;

verus! {

/// The bits of a UUID that name its version and variant.
pub const UUID_VERSION_VARIANT_MASK: u128 = 0x0000_0000_0000_F000_C000_0000_0000_0000u128;

/// What those bits hold in a random (version 4, RFC 4122 variant) UUID.
pub const UUID_V4_PATTERN: u128 = 0x0000_0000_0000_4000_8000_0000_0000_0000u128;

/// A fresh random UUID, as its 128-bit value.
///
/// Calls `uuid::Uuid::new_v4` and `Uuid::as_u128`. The value is random;
/// the contract states only what `new_v4` fixes: the version nibble is 4
/// and the variant bits are `10`.
#[verifier::external_body]
pub(crate) fn new_id() -> (id: u128)
    ensures
        id & UUID_VERSION_VARIANT_MASK == UUID_V4_PATTERN,
{
    uuid::Uuid::new_v4().as_u128()
}

/// The current time in milliseconds since the Unix epoch.
///
/// Calls `chrono::Utc::now` and `DateTime::timestamp_millis`. The value
/// depends on the clock, so nothing is stated of it.
#[verifier::external_body]
pub(crate) fn now_millis() -> (t: i64) {
    chrono::Utc::now().timestamp_millis()
}

} // verus!
