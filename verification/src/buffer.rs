//! The byte buffers that carry match values and packets, held in `bytes::Bytes`.

use vstd::prelude::*;

verus! {

/// Makes `bytes::Bytes` usable in signatures and fields; its contents are
/// reached through `buf_view`.
#[verifier::external_type_specification]
#[verifier::external_body]
pub struct ExBytes(bytes::Bytes);

/// The bytes that a `bytes::Bytes` holds, in order.
pub uninterp spec fn buf_view(b: bytes::Bytes) -> Seq<u8>;

/// Calls `Bytes::from(Vec<u8>)`, which takes over the vector's contents.
#[verifier::external_body]
pub(crate) fn buf_from_vec(v: Vec<u8>) -> (r: bytes::Bytes)
    ensures
        buf_view(r) == v@,
{
    bytes::Bytes::from(v)
}

/// Calls `Bytes::copy_from_slice`, which copies the slice.
#[verifier::external_body]
pub(crate) fn buf_copy_from_slice(s: &[u8]) -> (r: bytes::Bytes)
    ensures
        buf_view(r) == s@,
{
    bytes::Bytes::copy_from_slice(s)
}

/// Calls `Bytes::len`, the number of bytes held.
#[verifier::external_body]
pub(crate) fn buf_len(b: &bytes::Bytes) -> (r: usize)
    ensures
        r == buf_view(*b).len(),
{
    b.len()
}

/// Calls `<Bytes as AsRef<[u8]>>::as_ref`, a slice of the bytes held.
#[verifier::external_body]
pub(crate) fn buf_as_slice(b: &bytes::Bytes) -> (r: &[u8])
    ensures
        r@ == buf_view(*b),
{
    b.as_ref()
}

/// Calls `Bytes::slice` on `lo..hi`, the bytes between the two offsets;
/// the call panics unless `lo <= hi <= len`, which `requires` rules out.
#[verifier::external_body]
pub(crate) fn buf_slice(b: &bytes::Bytes, lo: usize, hi: usize) -> (r: bytes::Bytes)
    requires
        lo <= hi <= buf_view(*b).len(),
    ensures
        buf_view(r) == buf_view(*b).subrange(lo as int, hi as int),
{
    b.slice(lo..hi)
}

/// `<Bytes as Clone>::clone` gives a second handle on the same bytes.
pub assume_specification[ <bytes::Bytes as Clone>::clone ](b: &bytes::Bytes) -> (r: bytes::Bytes)
    ensures
        buf_view(r) == buf_view(*b),
;

} // verus!
