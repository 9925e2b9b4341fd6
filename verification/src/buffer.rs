//! Shared byte buffers.

use bytes::Bytes;
use vstd::prelude::*;

verus! {

/// `bytes::Bytes`, a cheaply cloned, shared byte buffer.
#[verifier::external_type_specification]
#[verifier::external_body]
pub struct ExBytes(bytes::Bytes);

/// The bytes that a buffer holds.
pub uninterp spec fn bytes_contents(b: Bytes) -> Seq<u8>;

/// `<Bytes as Clone>::clone`: the clone holds the same bytes.
pub assume_specification[ <bytes::Bytes as std::clone::Clone>::clone ](b: &bytes::Bytes) -> (r:
    bytes::Bytes)
    ensures
        bytes_contents(r) == bytes_contents(*b),
;

/// `<Bytes as AsRef<[u8]>>::as_ref`: a view of all the bytes of the buffer.
#[verifier::external_body]
pub(crate) fn as_slice(b: &Bytes) -> (r: &[u8])
    ensures
        r@ == bytes_contents(*b),
{
    b.as_ref()
}

/// `<Bytes as From<Vec<u8>>>::from`: a buffer that holds the bytes of the
/// vector.
#[verifier::external_body]
pub(crate) fn from_vec(data: Vec<u8>) -> (r: Bytes)
    ensures
        bytes_contents(r) == data@,
{
    Bytes::from(data)
}

/// `Bytes::copy_from_slice`: a buffer that holds a copy of the slice.
#[verifier::external_body]
pub(crate) fn copy_of(data: &[u8]) -> (r: Bytes)
    ensures
        bytes_contents(r) == data@,
{
    Bytes::copy_from_slice(data)
}

/// `Bytes::slice` of a range that starts at zero: the first `end` bytes. It
/// panics where the buffer is shorter than that.
#[verifier::external_body]
pub(crate) fn prefix(b: &Bytes, end: usize) -> (r: Bytes)
    requires
        end <= bytes_contents(*b).len(),
    ensures
        bytes_contents(r) == bytes_contents(*b).subrange(0, end as int),
{
    b.slice(..end)
}

} // verus!
