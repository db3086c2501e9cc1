//! Byte buffers of the `bytes` crate, as the transcoding pipeline uses them:
//! a growable buffer that is filled, and immutable chunks that are handed on.
//!
//! Verus does not look into the two types. What they hold has a name here,
//! and the methods that the pipeline calls are given the contracts that the
//! crate's documentation states over that name.

use vstd::prelude::*;
use bytes::{Bytes, BytesMut};

verus! {

/// `bytes::BytesMut`, the buffer that is filled.
#[verifier::external_type_specification]
#[verifier::external_body]
pub struct ExBytesMut(BytesMut);

/// `bytes::Bytes`, the chunk that is handed on.
#[verifier::external_type_specification]
#[verifier::external_body]
pub struct ExBytes(Bytes);

/// The bytes that a buffer holds, in order.
pub uninterp spec fn buffered(buffer: BytesMut) -> Seq<u8>;

/// The bytes that a chunk holds, in order.
pub uninterp spec fn chunk_bytes(chunk: Bytes) -> Seq<u8>;

/// `BytesMut::with_capacity` gives a buffer that holds nothing. The vector
/// behind it cannot be made for more than `isize::MAX` bytes.
pub assume_specification[ BytesMut::with_capacity ](capacity: usize) -> (buffer: BytesMut)
    requires
        capacity <= isize::MAX,
    ensures
        buffered(buffer).len() == 0,
;

/// `BytesMut::len` is the number of bytes held.
pub assume_specification[ BytesMut::len ](buffer: &BytesMut) -> (len: usize)
    ensures
        len == buffered(*buffer).len(),
;

/// `BytesMut::extend_from_slice` appends the bytes given, growing the buffer
/// where it must; it panics where the new length overflows, which is left out.
pub assume_specification[ BytesMut::extend_from_slice ](buffer: &mut BytesMut, extend: &[u8])
    requires
        buffered(*old(buffer)).len() + extend@.len() <= isize::MAX,
    ensures
        buffered(*final(buffer)) == buffered(*old(buffer)) + extend@,
;

/// `BytesMut::freeze` turns a buffer into a chunk of the same bytes.
pub assume_specification[ BytesMut::freeze ](buffer: BytesMut) -> (chunk: Bytes)
    ensures
        chunk_bytes(chunk) == buffered(buffer),
;

/// `Bytes::len` is the number of bytes held.
pub assume_specification[ Bytes::len ](chunk: &Bytes) -> (len: usize)
    ensures
        len == chunk_bytes(*chunk).len(),
;

/// The bytes of a chunk as a vector, through `Bytes::to_vec` (the slice's
/// method, reached through `Deref`), which copies them in order.
#[verifier::external_body]
pub(crate) fn chunk_to_vec(chunk: &Bytes) -> (bytes: Vec<u8>)
    ensures
        bytes@ == chunk_bytes(*chunk),
{
    chunk.to_vec()
}

} // verus!
