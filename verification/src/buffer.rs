//! The byte buffers of the `bytes` crate, as far as batches of records are built in them.
use bytes::{BufMut, Bytes, BytesMut};
use vstd::prelude::*;

verus! {

/// `bytes::BytesMut`, the growable buffer in which a batch is assembled.
#[verifier::external_type_specification]
#[verifier::external_body]
pub struct ExBytesMut(BytesMut);

/// `bytes::Bytes`, the immutable buffer that a batch is sent in.
#[verifier::external_type_specification]
#[verifier::external_body]
pub struct ExBytes(Bytes);

/// The bytes that have been written to a `BytesMut`, in order.
pub uninterp spec fn bytes_mut_contents(buffer: BytesMut) -> Seq<u8>;

/// The capacity that was asked for where a `BytesMut` was created by `BytesMut::with_capacity`.
/// Appending to the buffer does not change it.
pub uninterp spec fn bytes_mut_requested_capacity(buffer: BytesMut) -> nat;

/// The bytes held by a `Bytes`, in order.
pub uninterp spec fn bytes_contents(bytes: Bytes) -> Seq<u8>;

/// `BytesMut::with_capacity` creates an empty buffer for `capacity` bytes. The allocator may grant
/// more, of which nothing is said. The call panics where the capacity exceeds what
/// can be allocated, `isize::MAX` bytes.
pub assume_specification[ BytesMut::with_capacity ](capacity: usize) -> (buffer: BytesMut)
    requires
        capacity <= isize::MAX,
    ensures
        bytes_mut_contents(buffer) == Seq::<u8>::empty(),
        bytes_mut_requested_capacity(buffer) == capacity,
;

/// `BytesMut::len` returns the number of bytes written so far.
pub assume_specification[ BytesMut::len ](buffer: &BytesMut) -> (len: usize)
    ensures
        len == bytes_mut_contents(*buffer).len(),
;

/// `BytesMut::is_empty` tells whether nothing has been written.
pub assume_specification[ BytesMut::is_empty ](buffer: &BytesMut) -> (empty: bool)
    ensures
        empty == (bytes_mut_contents(*buffer).len() == 0),
;

/// `BytesMut::freeze` turns the buffer into a `Bytes` with the same contents.
pub assume_specification[ BytesMut::freeze ](buffer: BytesMut) -> (bytes: Bytes)
    ensures
        bytes_contents(bytes) == bytes_mut_contents(buffer),
;

/// `BufMut::put`, on a `BytesMut` and a slice, appends the slice, and grows the buffer where the
/// slice does not fit. A `BytesMut` takes up to `isize::MAX` bytes in all, which no slice exceeds:
/// an empty buffer takes any slice.
#[verifier::external_body]
pub(crate) fn put(buffer: &mut BytesMut, src: &[u8])
    requires
        bytes_mut_contents(*old(buffer)).len() > 0 ==> bytes_mut_contents(*old(buffer)).len()
            + src@.len() <= isize::MAX,
    ensures
        bytes_mut_contents(*final(buffer)) == bytes_mut_contents(*old(buffer)) + src@,
        bytes_mut_requested_capacity(*final(buffer)) == bytes_mut_requested_capacity(*old(buffer)),
{
    buffer.put(src)
}

/// `BytesMut::as_ref` gives the contents of the buffer as a slice.
#[verifier::external_body]
pub(crate) fn as_slice(buffer: &BytesMut) -> (slice: &[u8])
    ensures
        slice@ == bytes_mut_contents(*buffer),
{
    buffer.as_ref()
}

} // verus!
