//! Byte buffers and big-endian integers.
//!
//! Frames are read from [`bytes::Bytes`] and written to [`bytes::BytesMut`]. What such a buffer
//! holds is named by [`bytes_of`] and [`bytes_mut_of`]; the functions below that call the
//! `bytes` crate are trusted to do to those contents what their contracts say.

use bytes::{Buf, BufMut, Bytes, BytesMut};
use vstd::prelude::*;

verus! {

/// Trusted: the type `bytes::Bytes`, an opaque value whose contents are [`bytes_of`].
#[verifier::external_type_specification]
#[verifier::external_body]
pub struct ExBytes(bytes::Bytes);

/// Trusted: the type `bytes::BytesMut`, an opaque value whose contents are [`bytes_mut_of`].
#[verifier::external_type_specification]
#[verifier::external_body]
pub struct ExBytesMut(bytes::BytesMut);

/// The bytes that a `Bytes` handle still holds.
pub uninterp spec fn bytes_of(buffer: Bytes) -> Seq<u8>;

/// The bytes that a `BytesMut` buffer holds.
pub uninterp spec fn bytes_mut_of(buffer: BytesMut) -> Seq<u8>;

/// The number that a sequence of bytes stands for, most significant byte first.
pub open spec fn be_uint(bytes: Seq<u8>) -> nat
    decreases bytes.len(),
{
    if bytes.len() == 0 {
        0
    } else {
        be_uint(bytes.drop_last()) * 256 + bytes.last() as nat
    }
}

/// The low `width` bytes of `value`, most significant byte first.
pub open spec fn be_bytes(value: nat, width: nat) -> Seq<u8>
    decreases width,
{
    if width == 0 {
        Seq::empty()
    } else {
        be_bytes(value / 256, (width - 1) as nat).push((value % 256) as u8)
    }
}

/// How many numbers `width` bytes can stand for.
pub open spec fn byte_range(width: nat) -> nat
    decreases width,
{
    if width == 0 {
        1
    } else {
        byte_range((width - 1) as nat) * 256
    }
}

/// `width` bytes are written for a value of any size.
pub proof fn be_bytes_len(value: nat, width: nat)
    ensures
        be_bytes(value, width).len() == width,
    decreases width,
{
    if width > 0 {
        be_bytes_len(value / 256, (width - 1) as nat);
    }
}

/// Reading back the bytes of a value that fits gives the value.
pub proof fn be_uint_of_be_bytes(value: nat, width: nat)
    requires
        value < byte_range(width),
    ensures
        be_uint(be_bytes(value, width)) == value,
    decreases width,
{
    if width > 0 {
        let front = be_bytes(value / 256, (width - 1) as nat);
        let all = be_bytes(value, width);
        be_uint_of_be_bytes(value / 256, (width - 1) as nat);
        assert(all.drop_last() =~= front);
        assert(all.last() == (value % 256) as u8);
    }
}

/// Writing the number that some bytes stand for gives those bytes back.
pub proof fn be_bytes_of_be_uint(bytes: Seq<u8>)
    ensures
        be_bytes(be_uint(bytes), bytes.len()) == bytes,
    decreases bytes.len(),
{
    if bytes.len() > 0 {
        let front = bytes.drop_last();
        let low = bytes.last() as nat;
        be_bytes_of_be_uint(front);
        assert((be_uint(front) * 256 + low) / 256 == be_uint(front));
        assert((be_uint(front) * 256 + low) % 256 == low);
        assert(front.push(bytes.last()) =~= bytes);
    } else {
        assert(bytes =~= Seq::empty());
    }
}

/// The number that some bytes stand for is in the range of their width.
pub proof fn be_uint_in_range(bytes: Seq<u8>)
    ensures
        be_uint(bytes) < byte_range(bytes.len()),
    decreases bytes.len(),
{
    if bytes.len() > 0 {
        be_uint_in_range(bytes.drop_last());
    }
}

/// Two bytes hold a number modulo 65536.
pub proof fn be_bytes_keeps_low_bytes(value: nat)
    ensures
        be_bytes(value % 65536, 2) == be_bytes(value, 2),
{
    reveal_with_fuel(be_bytes, 3);
    assert((value % 65536) % 256 == value % 256);
    assert(((value % 65536) / 256) % 256 == (value / 256) % 256);
}

/// A `u16` fits in two bytes, a `u32` in four and a `u64` in eight.
pub proof fn byte_range_of_integers()
    ensures
        byte_range(2) == u16::MAX + 1,
        byte_range(4) == u32::MAX + 1,
        byte_range(8) == u64::MAX + 1,
{
    reveal_with_fuel(byte_range, 9);
}

/// Trusted: `BytesMut::len` is the number of bytes held.
pub assume_specification[ BytesMut::len ](buffer: &BytesMut) -> (len: usize)
    ensures
        len == bytes_mut_of(*buffer).len(),
;

/// Trusted: `BytesMut::new` gives an empty buffer.
pub assume_specification[ BytesMut::new ]() -> (buffer: BytesMut)
    ensures
        bytes_mut_of(buffer) == Seq::<u8>::empty(),
;

/// Trusted: `BytesMut::freeze` keeps the bytes and makes them immutable.
pub assume_specification[ BytesMut::freeze ](buffer: BytesMut) -> (frozen: Bytes)
    ensures
        bytes_of(frozen) == bytes_mut_of(buffer),
;

/// Trusted: `BytesMut::extend_from_slice` appends the bytes of the slice. A buffer holds at
/// most `isize::MAX` bytes; the want of memory below that is not described.
pub assume_specification[ BytesMut::extend_from_slice ](buffer: &mut BytesMut, extend: &[u8])
    requires
        bytes_mut_of(*old(buffer)).len() + extend@.len() <= isize::MAX,
    ensures
        bytes_mut_of(*final(buffer)) == bytes_mut_of(*old(buffer)) + extend@,
;

/// Trusted: `put_u8` of `bytes::BufMut` appends one byte to a `BytesMut`.
#[verifier::external_body]
pub(crate) fn put_u8(buffer: &mut BytesMut, value: u8)
    requires
        bytes_mut_of(*old(buffer)).len() + 1 <= isize::MAX,
    ensures
        bytes_mut_of(*final(buffer)) == bytes_mut_of(*old(buffer)).push(value),
{
    buffer.put_u8(value)
}

/// Trusted: `put_u16` of `bytes::BufMut` appends the two bytes of a number to a `BytesMut`,
/// most significant byte first.
#[verifier::external_body]
pub(crate) fn put_u16(buffer: &mut BytesMut, value: u16)
    requires
        bytes_mut_of(*old(buffer)).len() + 2 <= isize::MAX,
    ensures
        bytes_mut_of(*final(buffer)) == bytes_mut_of(*old(buffer)) + be_bytes(value as nat, 2),
{
    buffer.put_u16(value)
}

/// Trusted: `put_u32` of `bytes::BufMut` appends the four bytes of a number to a `BytesMut`,
/// most significant byte first.
#[verifier::external_body]
pub(crate) fn put_u32(buffer: &mut BytesMut, value: u32)
    requires
        bytes_mut_of(*old(buffer)).len() + 4 <= isize::MAX,
    ensures
        bytes_mut_of(*final(buffer)) == bytes_mut_of(*old(buffer)) + be_bytes(value as nat, 4),
{
    buffer.put_u32(value)
}

/// Trusted: `put_u64` of `bytes::BufMut` appends the eight bytes of a number to a `BytesMut`,
/// most significant byte first.
#[verifier::external_body]
pub(crate) fn put_u64(buffer: &mut BytesMut, value: u64)
    requires
        bytes_mut_of(*old(buffer)).len() + 8 <= isize::MAX,
    ensures
        bytes_mut_of(*final(buffer)) == bytes_mut_of(*old(buffer)) + be_bytes(value as nat, 8),
{
    buffer.put_u64(value)
}

/// Trusted: `Bytes::len` is the number of bytes held. It is also what `remaining` of
/// `bytes::Buf` gives for a `Bytes`.
pub assume_specification[ Bytes::len ](buffer: &Bytes) -> (len: usize)
    ensures
        len == bytes_of(*buffer).len(),
;

/// Trusted: `Bytes::split_to` cuts off and returns the first `at` bytes and leaves the others.
/// It panics where there are fewer.
pub assume_specification[ Bytes::split_to ](buffer: &mut Bytes, at: usize) -> (front: Bytes)
    requires
        at <= bytes_of(*old(buffer)).len(),
    ensures
        bytes_of(front) == bytes_of(*old(buffer)).take(at as int),
        bytes_of(*final(buffer)) == bytes_of(*old(buffer)).skip(at as int),
;

/// Trusted: the `Clone` of `Bytes` gives a handle to the same bytes.
pub assume_specification[ <Bytes as Clone>::clone ](buffer: &Bytes) -> (copy: Bytes)
    ensures
        bytes_of(copy) == bytes_of(*buffer),
;

/// Trusted: the `AsRef<[u8]>` of `Bytes` lends the bytes held.
#[verifier::external_body]
pub(crate) fn as_slice(buffer: &Bytes) -> (slice: &[u8])
    ensures
        slice@ == bytes_of(*buffer),
{
    buffer.as_ref()
}

/// Trusted: `get_u8` of `bytes::Buf` takes the first byte off a `Bytes`. It panics where there
/// is none.
#[verifier::external_body]
pub(crate) fn get_u8(buffer: &mut Bytes) -> (value: u8)
    requires
        bytes_of(*old(buffer)).len() >= 1,
    ensures
        value == bytes_of(*old(buffer))[0],
        bytes_of(*final(buffer)) == bytes_of(*old(buffer)).skip(1),
{
    buffer.get_u8()
}

/// Trusted: `get_u16` of `bytes::Buf` takes two bytes off a `Bytes` and reads them most
/// significant byte first. It panics where there are fewer.
#[verifier::external_body]
pub(crate) fn get_u16(buffer: &mut Bytes) -> (value: u16)
    requires
        bytes_of(*old(buffer)).len() >= 2,
    ensures
        value == be_uint(bytes_of(*old(buffer)).take(2)),
        bytes_of(*final(buffer)) == bytes_of(*old(buffer)).skip(2),
{
    buffer.get_u16()
}

/// Trusted: `get_u32` of `bytes::Buf` takes four bytes off a `Bytes` and reads them most
/// significant byte first. It panics where there are fewer.
#[verifier::external_body]
pub(crate) fn get_u32(buffer: &mut Bytes) -> (value: u32)
    requires
        bytes_of(*old(buffer)).len() >= 4,
    ensures
        value == be_uint(bytes_of(*old(buffer)).take(4)),
        bytes_of(*final(buffer)) == bytes_of(*old(buffer)).skip(4),
{
    buffer.get_u32()
}

/// Trusted: `get_u64` of `bytes::Buf` takes eight bytes off a `Bytes` and reads them most
/// significant byte first. It panics where there are fewer.
#[verifier::external_body]
pub(crate) fn get_u64(buffer: &mut Bytes) -> (value: u64)
    requires
        bytes_of(*old(buffer)).len() >= 8,
    ensures
        value == be_uint(bytes_of(*old(buffer)).take(8)),
        bytes_of(*final(buffer)) == bytes_of(*old(buffer)).skip(8),
{
    buffer.get_u64()
}

} // verus!
