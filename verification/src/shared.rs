//! Sharing of what is counted by reference.

use std::rc::Rc;
use vstd::prelude::*;

verus! {

/// A second handle on what `shared` points to.
///
/// Wraps `Rc::clone`, which makes another pointer to the same allocation.
#[verifier::external_body]
pub(crate) fn share<T>(shared: &Rc<T>) -> (handle: Rc<T>)
    ensures
        handle == *shared,
{
    Rc::clone(shared)
}

} // verus!
