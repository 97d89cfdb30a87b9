//! Fresh identifiers.
use vstd::prelude::*;

verus! {

/// The bits of a UUID that mark it as version 4 (random) and RFC 4122 variant.
pub open spec fn is_v4_uuid(id: u128) -> bool {
    id & 0xF000_C000_0000_0000_0000 == 0x4000_8000_0000_0000_0000
}

/// Calls `uuid::Uuid::new_v4` and gives back the UUID as a number (its bytes
/// big-endian). The value is random; the claim is only that `new_v4` sets the
/// version bits to 4 and the variant bits to `10`, as its source does.
#[verifier::external_body]
pub(crate) fn new_uuid() -> (id: u128)
    ensures
        is_v4_uuid(id),
{
    uuid::Uuid::new_v4().as_u128()
}

} // verus!
