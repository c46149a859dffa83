//! The byte buffers that carry a decoded body: `bytes::Bytes` and
//! `bytes::BytesMut`, with what each holds.

use bytes::{Bytes, BytesMut};
use vstd::prelude::*;

verus! {

/// An immutable byte buffer, held as an opaque value.
#[verifier::external_type_specification]
#[verifier::external_body]
pub struct ExBytes(Bytes);

/// A growable byte buffer, held as an opaque value.
#[verifier::external_type_specification]
#[verifier::external_body]
pub struct ExBytesMut(BytesMut);

/// The bytes that a `Bytes` holds, in order.
pub uninterp spec fn bytes_contents(b: Bytes) -> Seq<u8>;

/// The bytes that a `BytesMut` holds, in order.
pub uninterp spec fn bytes_mut_contents(b: BytesMut) -> Seq<u8>;

/// `Bytes::copy_from_slice` makes a buffer that holds a copy of the slice.
pub assume_specification[ Bytes::copy_from_slice ](data: &[u8]) -> (b: Bytes)
    ensures
        bytes_contents(b) == data@,
;

/// `BytesMut::with_capacity` makes an empty buffer. It is stated for
/// capacities that an allocation can have.
pub assume_specification[ BytesMut::with_capacity ](capacity: usize) -> (b: BytesMut)
    requires
        capacity <= isize::MAX,
    ensures
        bytes_mut_contents(b) == Seq::<u8>::empty(),
;

/// `BytesMut::extend_from_slice` appends a copy of the slice to what the
/// buffer holds. It is stated for lengths whose sum is a `usize`.
pub assume_specification[ BytesMut::extend_from_slice ](b: &mut BytesMut, extend: &[u8])
    requires
        bytes_mut_contents(*old(b)).len() + extend@.len() <= usize::MAX,
    ensures
        bytes_mut_contents(*final(b)) == bytes_mut_contents(*old(b)) + extend@,
;

/// `BytesMut::freeze` turns the buffer into a `Bytes` that holds the same
/// bytes.
pub assume_specification[ BytesMut::freeze ](b: BytesMut) -> (r: Bytes)
    ensures
        bytes_contents(r) == bytes_mut_contents(b),
;

} // verus!
