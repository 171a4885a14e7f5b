//! Byte buffers of the `bytes` crate, as the codecs and connections use them.
use vstd::prelude::*;

use bytes::BytesMut;

verus! {

#[verifier::external_type_specification]
#[verifier::external_body]
pub struct ExBytesMut(BytesMut);

/// The bytes a buffer holds, in order.
pub uninterp spec fn bytes_view(b: BytesMut) -> Seq<u8>;

/// An empty buffer (`BytesMut::new`).
///
/// Trusted: a new buffer holds no bytes.
#[verifier::external_body]
pub(crate) fn bytes_new() -> (b: BytesMut)
    ensures
        bytes_view(b) == Seq::<u8>::empty(),
{
    BytesMut::new()
}

/// The bytes of a buffer as a slice (`<BytesMut as AsRef<[u8]>>::as_ref`).
///
/// Trusted: the slice holds the buffer's bytes, in order.
#[verifier::external_body]
pub(crate) fn bytes_as_slice(b: &BytesMut) -> (s: &[u8])
    ensures
        s@ == bytes_view(*b),
{
    b.as_ref()
}

/// Splits off the first `at` bytes of a buffer (`BytesMut::split_to`), which panics when `at`
/// is past the end.
///
/// Trusted: the result holds the first `at` bytes, and the buffer keeps the rest.
#[verifier::external_body]
pub(crate) fn bytes_split_to(b: &mut BytesMut, at: usize) -> (head: BytesMut)
    requires
        at <= bytes_view(*old(b)).len(),
    ensures
        bytes_view(head) == bytes_view(*old(b)).subrange(0, at as int),
        bytes_view(*final(b)) == bytes_view(*old(b)).subrange(at as int, bytes_view(*old(b)).len() as int),
{
    b.split_to(at)
}

/// Appends bytes to a buffer (`BytesMut::extend_from_slice`).
///
/// Trusted: the buffer then holds its bytes followed by `data`. The call panics when the
/// capacity it needs overflows; the bound on the lengths rules that out as far as the
/// contents go, and the buffer's position within its allocation is left unsaid.
#[verifier::external_body]
pub(crate) fn bytes_extend(b: &mut BytesMut, data: &[u8])
    requires
        bytes_view(*old(b)).len() + data@.len() <= isize::MAX,
    ensures
        bytes_view(*final(b)) == bytes_view(*old(b)) + data@,
{
    b.extend_from_slice(data)
}

} // verus!
