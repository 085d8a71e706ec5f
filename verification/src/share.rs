//! Shared ownership of values that several owners read.

use vstd::prelude::*;
use std::sync::Arc;

verus! {

/// `Arc::clone` of std: one more handle to the value that `handle` points to.
#[verifier::external_body]
pub(crate) fn share<T>(handle: &Arc<T>) -> (other: Arc<T>)
    ensures
        other == *handle,
{
    Arc::clone(handle)
}

} // verus!
