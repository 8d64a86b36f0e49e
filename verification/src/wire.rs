//! The byte buffer of the `bytes` crate, as far as frames are assembled in it.
//!
//! Nothing in this file is proved: each function states what the crate's
//! source shows of the call that it makes.

use bytes::BufMut;
use bytes::BytesMut;
use vstd::prelude::*;

use crate::frame::le_bytes;

verus! {

/// `bytes::BytesMut`, taken as it is: nothing of its inside is known here.
#[verifier::external_type_specification]
#[verifier::external_body]
pub struct ExBytesMut(bytes::BytesMut);

/// The bytes that a buffer holds, first written first.
pub uninterp spec fn buf_contents(b: BytesMut) -> Seq<u8>;

/// The number of bytes that a buffer was made to hold. The buffer may have
/// room for more; it never has room for less.
pub uninterp spec fn buf_room(b: BytesMut) -> nat;

/// `BytesMut::with_capacity`: an empty buffer that can take `capacity` bytes.
/// Above 31 bytes the crate allocates a `Vec` of that capacity, which panics
/// beyond `isize::MAX`.
#[verifier::external_body]
pub(crate) fn buf_with_capacity(capacity: usize) -> (b: BytesMut)
    requires
        capacity <= isize::MAX,
    ensures
        buf_contents(b) == Seq::<u8>::empty(),
        buf_room(b) == capacity,
{
    BytesMut::with_capacity(capacity)
}

/// `BufMut::put_slice` on a `BytesMut`: appends `src`. The crate panics where
/// the buffer's remaining capacity is smaller than `src`; it does not grow.
#[verifier::external_body]
pub(crate) fn buf_put_slice(b: &mut BytesMut, src: &[u8])
    requires
        buf_contents(*old(b)).len() + src@.len() <= buf_room(*old(b)),
    ensures
        buf_contents(*final(b)) == buf_contents(*old(b)) + src@,
        buf_room(*final(b)) == buf_room(*old(b)),
{
    b.put_slice(src)
}

/// `BufMut::put_u32_le` on a `BytesMut`: appends the four bytes of `n`, least
/// significant first, through `put_slice`, so with the same panic.
#[verifier::external_body]
pub(crate) fn buf_put_u32_le(b: &mut BytesMut, n: u32)
    requires
        buf_contents(*old(b)).len() + 4 <= buf_room(*old(b)),
    ensures
        buf_contents(*final(b)) == buf_contents(*old(b)) + le_bytes(n),
        buf_room(*final(b)) == buf_room(*old(b)),
{
    b.put_u32_le(n)
}

/// The buffer's bytes, copied out: `BytesMut` dereferences to the slice of
/// what was written to it.
#[verifier::external_body]
pub(crate) fn buf_into_vec(b: BytesMut) -> (v: Vec<u8>)
    ensures
        v@ == buf_contents(b),
{
    b.to_vec()
}

} // verus!
