//! What the library relies on of the byte buffers of the `bytes` crate.
//!
//! Every item here is trusted: its contract states, over the bytes that a
//! buffer holds, what the function of `bytes` named in its comment does.
//! Running out of memory is not modelled; a buffer that would outgrow
//! `isize::MAX` bytes is left out by `requires`. Buffers are only ever filled
//! from the start here, so no space that was read before counts towards that.

use bytes::{Buf, BufMut, Bytes, BytesMut};
use vstd::prelude::*;

use crate::le::{le_u32, le_u64, u32_le};

verus! {

/// Declares `bytes::Bytes`, a shared buffer that is read from the front.
#[verifier::external_type_specification]
#[verifier::external_body]
pub struct ExBytes(bytes::Bytes);

/// Declares `bytes::BytesMut`, a buffer that is filled at the back.
#[verifier::external_type_specification]
#[verifier::external_body]
pub struct ExBytesMut(bytes::BytesMut);

/// The bytes that a `Bytes` holds, front first.
pub uninterp spec fn bytes_contents(buffer: Bytes) -> Seq<u8>;

/// The bytes that a `BytesMut` holds, front first.
pub uninterp spec fn bytes_mut_contents(buffer: BytesMut) -> Seq<u8>;

/// `BytesMut::new`: the new buffer is empty.
pub assume_specification[ BytesMut::new ]() -> (buffer: BytesMut)
    ensures
        bytes_mut_contents(buffer) == Seq::<u8>::empty(),
;

/// `BytesMut::extend_from_slice`: appends the slice.
pub assume_specification[ BytesMut::extend_from_slice ](buffer: &mut BytesMut, extend: &[u8])
    requires
        bytes_mut_contents(*old(buffer)).len() + extend@.len() <= isize::MAX,
    ensures
        bytes_mut_contents(*final(buffer)) == bytes_mut_contents(*old(buffer)) + extend@,
;

/// `BytesMut::freeze`: the same bytes, now shared.
pub assume_specification[ BytesMut::freeze ](buffer: BytesMut) -> (frozen: Bytes)
    ensures
        bytes_contents(frozen) == bytes_mut_contents(buffer),
;

/// `Bytes::copy_from_slice`: a buffer that holds a copy of the slice.
pub assume_specification[ Bytes::copy_from_slice ](data: &[u8]) -> (buffer: Bytes)
    ensures
        bytes_contents(buffer) == data@,
;

/// `Bytes::len`: how many bytes are held.
pub assume_specification[ Bytes::len ](buffer: &Bytes) -> (len: usize)
    ensures
        len == bytes_contents(*buffer).len(),
;

/// `Bytes::is_empty`: whether no byte is held.
pub assume_specification[ Bytes::is_empty ](buffer: &Bytes) -> (empty: bool)
    ensures
        empty == (bytes_contents(*buffer).len() == 0),
;

/// `Bytes::split_to`: takes the first `at` bytes off the front and returns
/// them. It panics where fewer are held.
pub assume_specification[ Bytes::split_to ](buffer: &mut Bytes, at: usize) -> (front: Bytes)
    requires
        at <= bytes_contents(*old(buffer)).len(),
    ensures
        bytes_contents(front) == bytes_contents(*old(buffer)).take(at as int),
        bytes_contents(*final(buffer)) == bytes_contents(*old(buffer)).skip(at as int),
;

/// `Bytes::truncate`: keeps the first `len` bytes; where no more than `len`
/// are held, all of them.
pub assume_specification[ Bytes::truncate ](buffer: &mut Bytes, len: usize)
    ensures
        len <= bytes_contents(*old(buffer)).len() ==> bytes_contents(*final(buffer))
            == bytes_contents(*old(buffer)).take(len as int),
        len > bytes_contents(*old(buffer)).len() ==> bytes_contents(*final(buffer))
            == bytes_contents(*old(buffer)),
;

/// `Bytes::deref`: the held bytes as a slice.
#[verifier::external_body]
pub(crate) fn as_slice(buffer: &Bytes) -> (slice: &[u8])
    ensures
        slice@ == bytes_contents(*buffer),
{
    std::ops::Deref::deref(buffer)
}

/// `BufMut::put_u32_le` on a `BytesMut`: appends the four bytes of `n`, least
/// significant first.
#[verifier::external_body]
pub(crate) fn put_u32_le(buffer: &mut BytesMut, n: u32)
    requires
        bytes_mut_contents(*old(buffer)).len() + 4 <= isize::MAX,
    ensures
        bytes_mut_contents(*final(buffer)) == bytes_mut_contents(*old(buffer)) + u32_le(n),
{
    buffer.put_u32_le(n);
}

/// `BufMut::put` on a `BytesMut`: appends all bytes of `source`.
#[verifier::external_body]
pub(crate) fn put(buffer: &mut BytesMut, source: Bytes)
    requires
        bytes_mut_contents(*old(buffer)).len() + bytes_contents(source).len() <= isize::MAX,
    ensures
        bytes_mut_contents(*final(buffer)) == bytes_mut_contents(*old(buffer)) + bytes_contents(
            source,
        ),
{
    buffer.put(source);
}

/// `BufMut::put_bytes` on a `BytesMut`: appends `count` times the byte `value`.
#[verifier::external_body]
pub(crate) fn put_bytes(buffer: &mut BytesMut, value: u8, count: usize)
    requires
        bytes_mut_contents(*old(buffer)).len() + count <= isize::MAX,
    ensures
        bytes_mut_contents(*final(buffer)) == bytes_mut_contents(*old(buffer)) + Seq::new(
            count as nat,
            |i: int| value,
        ),
{
    buffer.put_bytes(value, count);
}

/// `Buf::get_u32_le` on a `Bytes`: takes four bytes off the front and returns
/// the integer that they are, least significant byte first. It panics where
/// fewer than four bytes are held.
#[verifier::external_body]
pub(crate) fn get_u32_le(buffer: &mut Bytes) -> (n: u32)
    requires
        bytes_contents(*old(buffer)).len() >= 4,
    ensures
        n == le_u32(bytes_contents(*old(buffer)).take(4)),
        bytes_contents(*final(buffer)) == bytes_contents(*old(buffer)).skip(4),
{
    buffer.get_u32_le()
}

/// `Buf::get_u64_le` on a `Bytes`: takes eight bytes off the front and returns
/// the integer that they are, least significant byte first. It panics where
/// fewer than eight bytes are held.
#[verifier::external_body]
pub(crate) fn get_u64_le(buffer: &mut Bytes) -> (n: u64)
    requires
        bytes_contents(*old(buffer)).len() >= 8,
    ensures
        n == le_u64(bytes_contents(*old(buffer)).take(8)),
        bytes_contents(*final(buffer)) == bytes_contents(*old(buffer)).skip(8),
{
    buffer.get_u64_le()
}

} // verus!
