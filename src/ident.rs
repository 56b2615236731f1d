//! Subscription identifiers: random version-4 UUIDs, held as their 128-bit value.
use vstd::prelude::*;

verus! {

/// The UUID version number held in bits 76..80 of an identifier.
pub open spec fn version_of(id: u128) -> u128 {
    (id >> 76u128) & 0xfu128
}

/// The UUID variant bits held in bits 62..64 of an identifier.
pub open spec fn variant_of(id: u128) -> u128 {
    (id >> 62u128) & 0x3u128
}

/// Relies on `uuid::Uuid::new_v4` and `uuid::Uuid::as_u128`: a random UUID
/// whose version nibble is 4 and whose variant bits are `10` (RFC 4122).
/// Nothing is promised about the other 122 bits.
#[verifier::external_body]
pub(crate) fn random_id() -> (r: u128)
    ensures
        version_of(r) == 4,
        variant_of(r) == 2,
{
    uuid::Uuid::new_v4().as_u128()
}

} // verus!
