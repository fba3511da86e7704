//! The reference-counted byte strings that travel between the websocket and a
//! game's pipes.
use bytes::Bytes;
use vstd::prelude::*;

verus! {

/// `bytes::Bytes`, of which only its contents are known.
#[verifier::external_type_specification]
#[verifier::external_body]
pub struct ExBytes(bytes::Bytes);

/// The bytes that a `bytes::Bytes` holds.
pub uninterp spec fn contents(bytes: bytes::Bytes) -> Seq<u8>;

/// `bytes::Bytes::copy_from_slice`: a buffer that holds a copy of `data`.
pub assume_specification[ bytes::Bytes::copy_from_slice ](data: &[u8]) -> (copy: bytes::Bytes)
    ensures
        contents(copy) == data@,
;

/// `bytes::Bytes::from` on a `Vec<u8>`: a buffer that holds the vector's bytes.
#[verifier::external_body]
pub(crate) fn from_vec(data: Vec<u8>) -> (bytes: Bytes)
    ensures
        contents(bytes) == data@,
{
    Bytes::from(data)
}

/// `bytes::Bytes::clone`: another handle on the same bytes.
#[verifier::external_body]
pub(crate) fn share(bytes: &Bytes) -> (shared: Bytes)
    ensures
        contents(shared) == contents(*bytes),
{
    bytes.clone()
}

/// The slice that `bytes::Bytes` dereferences to, as a vector: the buffer's
/// bytes.
#[verifier::external_body]
pub(crate) fn to_vec(bytes: &Bytes) -> (data: Vec<u8>)
    ensures
        data@ == contents(*bytes),
{
    bytes.to_vec()
}

} // verus!
