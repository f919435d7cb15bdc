//! Node identifiers.
//!
//! Every node carries a 128-bit identifier drawn at random when the node is built.  The
//! identifier is the node's identity for lookups: two handles name the same node exactly when
//! their identifiers agree.

use uuid::Uuid;
use vstd::prelude::*;

verus! {

/// The 128 bits of a node's identifier.
pub type NodeId = u128;

/// The bits of an identifier that hold the UUID version and variant.
pub const ID_FORMAT_MASK: u128 = 0x0000_0000_0000_f000_c000_0000_0000_0000u128;

/// What the bits under [`ID_FORMAT_MASK`] hold in a random (version 4, RFC variant) UUID.
pub const ID_FORMAT_RANDOM: u128 = 0x0000_0000_0000_4000_8000_0000_0000_0000u128;

/// Whether `id` has the layout of a random (version 4) UUID: version nibble 4 and the two
/// variant bits `10`.
pub open spec fn is_random_id(id: NodeId) -> bool {
    id & ID_FORMAT_MASK == ID_FORMAT_RANDOM
}

/// Draws a fresh identifier with `uuid::Uuid::new_v4` and hands back its 128 bits
/// (`Uuid::as_u128`).
///
/// Trusted: the body is not verified.  The contract claims only what holds of every draw, the
/// version and variant bits that `new_v4` sets; which identifier comes back is left open, and
/// two calls are not assumed to differ.  `new_v4` aborts when the operating system's random
/// source cannot be read.
#[verifier::external_body]
pub(crate) fn fresh_id() -> (id: NodeId)
    ensures
        is_random_id(id),
{
    Uuid::new_v4().as_u128()
}

} // verus!
