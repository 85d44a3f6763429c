//! Fresh 128-bit identifiers for outputs and witness requests.
use vstd::prelude::*;

verus! {

/// The bits that every version-4 (random) UUID has in common: version nibble 4
/// and variant bits `10`.
pub open spec fn is_random_uuid(id: u128) -> bool {
    id & 0x0000_0000_0000_f000_c000_0000_0000_0000u128
        == 0x0000_0000_0000_4000_8000_0000_0000_0000u128
}

/// Draws a fresh identifier with `uuid::Uuid::new_v4` and returns its 128 bits.
///
/// Trusted, not proved: the result comes from the operating system's random
/// number generator, so the contract states only what `new_v4` fixes in every
/// outcome, the version and variant bits of a random UUID. Two calls may
/// return the same value; nothing here says they do not.
#[verifier::external_body]
pub(crate) fn random_id() -> (id: u128)
    ensures
        is_random_uuid(id),
{
    uuid::Uuid::new_v4().as_u128()
}

} // verus!
