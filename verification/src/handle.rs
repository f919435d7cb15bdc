//! Shared handles to nodes.

use std::rc::Rc;
use vstd::prelude::*;

verus! {

/// A second handle to the value behind `handle`, made with `Rc::clone`.
///
/// Trusted: the body is not verified.  `Rc::clone` makes another pointer to the same
/// allocation, so the new handle holds the very value the old one holds.
#[verifier::external_body]
pub(crate) fn share<V>(handle: &Rc<V>) -> (twin: Rc<V>)
    ensures
        twin == *handle,
{
    Rc::clone(handle)
}

} // verus!
