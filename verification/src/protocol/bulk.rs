//! Bulk payloads: raw bytes kept in a buffer of their own.

use bytes::Bytes;
use vstd::prelude::*;

verus! {

/// `bytes::Bytes`, a cheaply cloneable owned run of bytes. Nothing of its
/// inside is visible here.
#[verifier::external_type_specification]
#[verifier::external_body]
pub struct ExBytes(bytes::Bytes);

/// The bytes that a `Bytes` holds, first to last.
pub uninterp spec fn bytes_of(data: Bytes) -> Seq<u8>;

/// Calls `Bytes::copy_from_slice`, which copies `data` into a buffer that the
/// result owns.
///
/// Trusted: the `Bytes` that comes back holds the bytes of `data`, all of
/// them and in their order.
#[verifier::external_body]
pub(crate) fn copy_from_slice(data: &[u8]) -> (copy: Bytes)
    ensures
        bytes_of(copy) == data@,
{
    Bytes::copy_from_slice(data)
}

} // verus!
