//! The byte container that received payloads travel in.
use vstd::prelude::*;

verus! {

/// `bytes::Bytes`, a shared handle on a run of bytes; its contents are
/// named by `bytes_view`.
#[verifier::external_type_specification]
#[verifier::external_body]
pub struct ExBytes(bytes::Bytes);

/// The bytes that a `Bytes` handle holds, in order.
pub uninterp spec fn bytes_view(b: bytes::Bytes) -> Seq<u8>;

/// Relies on `Bytes`'s `Clone`: a new handle on the same bytes.
pub assume_specification[ <bytes::Bytes as Clone>::clone ](b: &bytes::Bytes) -> (r: bytes::Bytes)
    ensures
        bytes_view(r) == bytes_view(*b),
;

/// Relies on `Bytes::len`: the number of bytes the handle holds.
#[verifier::external_body]
pub(crate) fn bytes_len(b: &bytes::Bytes) -> (r: usize)
    ensures
        r == bytes_view(*b).len(),
{
    b.len()
}

/// Relies on `Bytes::slice`: a handle on bytes `lo..hi`; it panics unless `lo <= hi <= len`.
#[verifier::external_body]
pub(crate) fn bytes_slice(b: &bytes::Bytes, lo: usize, hi: usize) -> (r: bytes::Bytes)
    requires
        lo <= hi <= bytes_view(*b).len(),
    ensures
        bytes_view(r) == bytes_view(*b).subrange(lo as int, hi as int),
{
    b.slice(lo..hi)
}

/// Relies on `Bytes::split_to`: hands out bytes `0..at` and keeps `at..len`;
/// it panics if `at > len`.
#[verifier::external_body]
pub(crate) fn bytes_split_to(b: &mut bytes::Bytes, at: usize) -> (r: bytes::Bytes)
    requires
        at <= bytes_view(*old(b)).len(),
    ensures
        bytes_view(r) == bytes_view(*old(b)).subrange(0, at as int),
        bytes_view(*final(b)) == bytes_view(*old(b)).subrange(
            at as int,
            bytes_view(*old(b)).len() as int,
        ),
{
    b.split_to(at)
}

/// Relies on `Bytes` dereferencing to the slice of its bytes.
#[verifier::external_body]
pub(crate) fn bytes_as_slice(b: &bytes::Bytes) -> (r: &[u8])
    ensures
        r@ == bytes_view(*b),
{
    b
}

/// Relies on `Bytes::clear`: the handle then holds no bytes.
#[verifier::external_body]
pub(crate) fn bytes_clear(b: &mut bytes::Bytes)
    ensures
        bytes_view(*final(b)).len() == 0,
{
    b.clear()
}

/// Relies on `Bytes` dereferencing to the slice of its bytes, which
/// `Vec::extend_from_slice` appends.
#[verifier::external_body]
pub(crate) fn extend_with_bytes(dst: &mut Vec<u8>, b: &bytes::Bytes)
    ensures
        final(dst)@ == old(dst)@ + bytes_view(*b),
{
    dst.extend_from_slice(b)
}

} // verus!
