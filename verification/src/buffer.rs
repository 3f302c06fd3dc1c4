//! Message bytes, held by the `bytes` crate.

use vstd::prelude::*;

verus! {

/// `bytes::Bytes`, a shared immutable byte string.
#[verifier::external_type_specification]
#[verifier::external_body]
pub struct ExBytes(bytes::Bytes);

/// `bytes::BytesMut`, a growing byte string.
#[verifier::external_type_specification]
#[verifier::external_body]
pub struct ExBytesMut(bytes::BytesMut);

/// The bytes that a `Bytes` holds.
pub uninterp spec fn content(b: bytes::Bytes) -> Seq<u8>;

/// The bytes that have been written to a `BytesMut`.
pub uninterp spec fn written(b: bytes::BytesMut) -> Seq<u8>;

/// The number of bytes that a `BytesMut` was made to hold.
pub uninterp spec fn room(b: bytes::BytesMut) -> nat;

/// `Bytes::copy_from_slice`: a new byte string that holds the bytes of `data`.
#[verifier::external_body]
pub(crate) fn copy_from_slice(data: &[u8]) -> (r: bytes::Bytes)
    ensures
        content(r) == data@,
{
    bytes::Bytes::copy_from_slice(data)
}

/// `Bytes::clone`: another handle to the same bytes.
#[verifier::external_body]
pub(crate) fn share(b: &bytes::Bytes) -> (r: bytes::Bytes)
    ensures
        content(r) == content(*b),
{
    b.clone()
}

/// `Bytes::deref`: the bytes as a slice.
#[verifier::external_body]
pub(crate) fn as_slice(b: &bytes::Bytes) -> (r: &[u8])
    ensures
        r@ == content(*b),
{
    b
}

/// `Buf::copy_to_bytes` on a slice: the first `len` bytes of `cursor`. The outside
/// function panics where fewer than `len` bytes are there.
#[verifier::external_body]
pub(crate) fn copy_to_bytes(mut cursor: &[u8], len: usize) -> (r: bytes::Bytes)
    requires
        len <= cursor@.len(),
    ensures
        content(r) == cursor@.subrange(0, len as int),
{
    bytes::Buf::copy_to_bytes(&mut cursor, len)
}

/// `BytesMut::with_capacity`: an empty buffer with room for `capacity` bytes. The
/// outside function panics where the room would exceed `isize::MAX`.
#[verifier::external_body]
pub(crate) fn with_capacity(capacity: usize) -> (r: bytes::BytesMut)
    requires
        capacity <= isize::MAX,
    ensures
        written(r) == Seq::<u8>::empty(),
        room(r) == capacity,
{
    bytes::BytesMut::with_capacity(capacity)
}

/// `BytesMut::extend_from_slice`: appends the bytes of `data`. Within the room that the
/// buffer was made with, the outside function does not allocate, and so cannot panic.
#[verifier::external_body]
pub(crate) fn extend_from_slice(buf: &mut bytes::BytesMut, data: &[u8])
    requires
        written(*old(buf)).len() + data@.len() <= room(*old(buf)),
    ensures
        written(*final(buf)) == written(*old(buf)) + data@,
        room(*final(buf)) == room(*old(buf)),
{
    buf.extend_from_slice(data)
}

/// `BytesMut::freeze`: the written bytes as an immutable byte string.
#[verifier::external_body]
pub(crate) fn freeze(buf: bytes::BytesMut) -> (r: bytes::Bytes)
    ensures
        content(r) == written(buf),
{
    buf.freeze()
}

} // verus!
