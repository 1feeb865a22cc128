//! Shared, read-only handles.
//!
//! Textures and materials are built once and then only read, by as many
//! shapes as use them. They are held through `Rc`, and a handle is copied,
//! never what it points to.

use vstd::prelude::*;
use std::rc::Rc;

verus! {

/// `Rc::clone`: another handle to the same value.
#[verifier::external_body]
pub(crate) fn share<T>(handle: &Rc<T>) -> (r: Rc<T>)
    ensures
        r == *handle,
{
    Rc::clone(handle)
}

} // verus!
