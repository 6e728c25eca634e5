//! The boundary to the `bytes` crate: the buffer types that packets are
//! exchanged with at the transport edge.

use vstd::prelude::*;

verus! {

#[verifier::external_type_specification]
#[verifier::external_body]
pub struct ExBytes(bytes::Bytes);

#[verifier::external_type_specification]
#[verifier::external_body]
pub struct ExBytesMut(bytes::BytesMut);

/// The bytes a `bytes::Bytes` buffer holds.
pub uninterp spec fn spec_bytes(b: bytes::Bytes) -> Seq<u8>;

/// The bytes a `bytes::BytesMut` buffer holds.
pub uninterp spec fn spec_bytes_mut(b: bytes::BytesMut) -> Seq<u8>;

/// Relies on `<BytesMut as From<&[u8]>>::from`, which copies the slice
/// into a freshly allocated buffer holding exactly those bytes.
#[verifier::external_body]
pub fn bytes_mut_from_vec(v: &Vec<u8>) -> (b: bytes::BytesMut)
    ensures
        spec_bytes_mut(b) == v@,
{
    bytes::BytesMut::from(v.as_slice())
}

/// Relies on `<Bytes as AsRef<[u8]>>::as_ref`, which exposes exactly the
/// bytes the buffer holds.
#[verifier::external_body]
pub fn bytes_as_slice(b: &bytes::Bytes) -> (s: &[u8])
    ensures
        s@ == spec_bytes(*b),
{
    b.as_ref()
}

} // verus!
