//! Trusted interface to the `bytes` crate: the two buffer types and the
//! handful of their operations that the replay buffer is built from.
//!
//! Nothing in this file is proved. Each contract restates what the `bytes`
//! crate documents for the operation it wraps.
use bytes::{Buf, BufMut, Bytes, BytesMut};
use vstd::prelude::*;

verus! {

/// `bytes::Bytes`: a handle on a stretch of bytes that several handles may
/// share. What it holds is known through `bytes_seq` only.
#[verifier::external_type_specification]
#[verifier::external_body]
pub struct ExBytes(bytes::Bytes);

/// `bytes::BytesMut`: a buffer of bytes that grows as bytes are written to
/// it. What it holds is known through `bytes_mut_seq` only.
#[verifier::external_type_specification]
#[verifier::external_body]
pub struct ExBytesMut(bytes::BytesMut);

/// The bytes that a `Bytes` handle exposes, in order, from its cursor on.
pub uninterp spec fn bytes_seq(b: Bytes) -> Seq<u8>;

/// The bytes written so far into a `BytesMut`.
pub uninterp spec fn bytes_mut_seq(b: BytesMut) -> Seq<u8>;

/// `Buf::remaining` on `Bytes`: the number of bytes left in the handle.
#[verifier::external_body]
pub(crate) fn bytes_remaining(b: &Bytes) -> (n: usize)
    ensures
        n == bytes_seq(*b).len(),
{
    b.remaining()
}

/// `Buf::chunk` on `Bytes`: the whole of what is left, as one slice.
#[verifier::external_body]
pub(crate) fn bytes_chunk(b: &Bytes) -> (s: &[u8])
    ensures
        s@ == bytes_seq(*b),
{
    b.chunk()
}

/// `Buf::advance` on `Bytes`: drops the first `cnt` bytes. The call panics
/// when `cnt` exceeds what is left, so that is required not to happen.
#[verifier::external_body]
pub(crate) fn bytes_advance(b: &mut Bytes, cnt: usize)
    requires
        cnt <= bytes_seq(*old(b)).len(),
    ensures
        bytes_seq(*final(b)) == bytes_seq(*old(b)).skip(cnt as int),
{
    b.advance(cnt)
}

/// `Buf::copy_to_bytes` on `Bytes`: splits off the first `len` bytes as a
/// handle of their own and leaves the rest. Panics when `len` exceeds what
/// is left.
#[verifier::external_body]
pub(crate) fn bytes_copy_to_bytes(b: &mut Bytes, len: usize) -> (head: Bytes)
    requires
        len <= bytes_seq(*old(b)).len(),
    ensures
        bytes_seq(head) == bytes_seq(*old(b)).take(len as int),
        bytes_seq(*final(b)) == bytes_seq(*old(b)).skip(len as int),
{
    b.copy_to_bytes(len)
}

/// `Clone::clone` on `Bytes`: a second handle on the same bytes.
#[verifier::external_body]
pub(crate) fn bytes_clone(b: &Bytes) -> (copy: Bytes)
    ensures
        bytes_seq(copy) == bytes_seq(*b),
{
    b.clone()
}

/// `BytesMut::with_capacity`: an empty buffer. The allocation behind it
/// cannot exceed `isize::MAX` bytes.
#[verifier::external_body]
pub(crate) fn bytes_mut_with_capacity(capacity: usize) -> (b: BytesMut)
    requires
        capacity <= isize::MAX,
    ensures
        bytes_mut_seq(b) == Seq::<u8>::empty(),
{
    BytesMut::with_capacity(capacity)
}

/// `BufMut::put_slice` on `BytesMut`: appends the slice, growing the buffer
/// as needed. The buffer cannot grow beyond `isize::MAX` bytes.
#[verifier::external_body]
pub(crate) fn bytes_mut_put_slice(b: &mut BytesMut, src: &[u8])
    requires
        bytes_mut_seq(*old(b)).len() + src@.len() <= isize::MAX,
    ensures
        bytes_mut_seq(*final(b)) == bytes_mut_seq(*old(b)) + src@,
{
    b.put_slice(src)
}

/// `BytesMut::freeze`: the same bytes as an immutable handle.
#[verifier::external_body]
pub(crate) fn bytes_mut_freeze(b: BytesMut) -> (frozen: Bytes)
    ensures
        bytes_seq(frozen) == bytes_mut_seq(b),
{
    b.freeze()
}

} // verus!
