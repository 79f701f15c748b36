//! Shared ownership of immutable values.

use std::sync::Arc;

use vstd::prelude::*;

verus! {

/// Another handle to the same shared value.
///
/// Calls `Arc::clone`, which makes a pointer to the same allocation: the value behind the new
/// handle is the value behind the old one.
#[verifier::external_body]
pub(crate) fn share<T>(a: &Arc<T>) -> (b: Arc<T>)
    ensures
        b == *a,
{
    a.clone()
}

} // verus!
