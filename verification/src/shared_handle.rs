//! Reference-counted handles of the standard library.

use std::sync::Arc;
use vstd::prelude::*;

verus! {

/// `<Arc<T> as Clone>::clone`: another handle to the same value.
#[verifier::external_body]
pub(crate) fn arc_clone<T>(value: &Arc<T>) -> (r: Arc<T>)
    ensures
        r == *value,
{
    value.clone()
}

/// `Arc::into_inner`: the value, where this was the last handle to it.
///
/// Whether it was depends on the other holders, which stays unsaid.
#[verifier::external_body]
pub(crate) fn arc_into_inner<T>(value: Arc<T>) -> (r: Option<T>)
    ensures
        r matches Some(v) ==> v == *value,
{
    Arc::into_inner(value)
}

} // verus!
