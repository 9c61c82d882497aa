//! Reference-counted byte buffers of the `bytes` crate.

use bytes::Bytes;
use vstd::prelude::*;

verus! {

/// The buffer type of the `bytes` crate.
#[verifier::external_type_specification]
#[verifier::external_body]
pub struct ExBytes(bytes::Bytes);

/// The bytes that a buffer holds.
pub uninterp spec fn bytes_content(b: Bytes) -> Seq<u8>;

/// `<Bytes as From<Vec<u8>>>::from`: the buffer takes over the vector and holds its bytes.
#[verifier::external_body]
pub(crate) fn bytes_from_vec(data: Vec<u8>) -> (r: Bytes)
    ensures
        bytes_content(r) == data@,
{
    Bytes::from(data)
}

/// `Bytes::from_owner`: the buffer keeps the owner alive and holds what the owner's
/// `as_ref` yields, for a vector its bytes.
#[verifier::external_body]
pub(crate) fn bytes_from_owner(owner: Vec<u8>) -> (r: Bytes)
    ensures
        bytes_content(r) == owner@,
{
    Bytes::from_owner(owner)
}

/// `<Bytes as AsRef<[u8]>>::as_ref`: the bytes of the buffer as a slice.
#[verifier::external_body]
pub(crate) fn bytes_as_slice(b: &Bytes) -> (r: &[u8])
    ensures
        r@ == bytes_content(*b),
{
    b.as_ref()
}

} // verus!
