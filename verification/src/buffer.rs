//! The byte buffers of the `bytes` crate, as the rest of the library sees them.
//!
//! Nothing in this file is proved: each function makes one call into `bytes` or
//! `byteorder`, and its contract restates what that crate documents.

use byteorder::{ByteOrder, LittleEndian};
use bytes::{Buf, BufMut, Bytes, BytesMut};
use vstd::prelude::*;

verus! {

/// `bytes::Bytes`, an immutable buffer that shares its storage. Verus does
/// not look inside.
#[verifier::external_type_specification]
#[verifier::external_body]
pub struct ExBytes(Bytes);

/// `bytes::BytesMut`, a buffer that grows as bytes are written. Verus does
/// not look inside.
#[verifier::external_type_specification]
#[verifier::external_body]
pub struct ExBytesMut(BytesMut);

/// The bytes that an immutable buffer holds, first to last.
pub uninterp spec fn content(buf: &Bytes) -> Seq<u8>;

/// The bytes written to a growable buffer so far, first to last.
pub uninterp spec fn written(buf: &BytesMut) -> Seq<u8>;

/// Two bytes read as a 16-bit number, low byte first.
pub open spec fn le16(lo: u8, hi: u8) -> int {
    lo as int + 256 * (hi as int)
}

/// The low byte of a 16-bit number.
pub open spec fn low_byte(n: u16) -> u8 {
    (n as int % 256) as u8
}

/// The high byte of a 16-bit number.
pub open spec fn high_byte(n: u16) -> u8 {
    (n as int / 256) as u8
}

/// `Bytes::new`: a buffer that holds nothing.
#[verifier::external_body]
pub(crate) fn bytes_new() -> (buf: Bytes)
    ensures
        content(&buf) == Seq::<u8>::empty(),
{
    Bytes::new()
}

/// `Bytes::len`: the number of bytes held.
#[verifier::external_body]
pub(crate) fn bytes_len(buf: &Bytes) -> (n: usize)
    ensures
        n == content(buf).len(),
{
    buf.len()
}

/// The `Deref` of a `Bytes` to a slice: the bytes held, borrowed.
#[verifier::external_body]
pub(crate) fn bytes_as_slice(buf: &Bytes) -> (s: &[u8])
    ensures
        s@ == content(buf),
{
    buf
}

/// `Bytes::slice` with the range `begin..`: a buffer over the bytes from
/// `begin` to the end, sharing storage. It panics where `begin` is past the
/// end.
#[verifier::external_body]
pub(crate) fn bytes_slice_from(buf: &Bytes, begin: usize) -> (part: Bytes)
    requires
        begin <= content(buf).len(),
    ensures
        content(&part) == content(buf).skip(begin as int),
{
    buf.slice(begin..)
}

/// `Bytes::split_to`: afterwards the buffer holds the bytes from `at` on, and
/// the returned buffer holds those before `at`. It panics where `at` exceeds
/// the length.
#[verifier::external_body]
pub(crate) fn bytes_split_to(buf: &mut Bytes, at: usize) -> (head: Bytes)
    requires
        at <= content(old(buf)).len(),
    ensures
        content(&head) == content(old(buf)).take(at as int),
        content(final(buf)) == content(old(buf)).skip(at as int),
{
    buf.split_to(at)
}

/// `Buf::copy_to_bytes` on a `Bytes`, which is `split_to`: the first `len`
/// bytes leave the buffer and are returned. It panics where `len` exceeds what
/// remains.
#[verifier::external_body]
pub(crate) fn bytes_copy_to_bytes(buf: &mut Bytes, len: usize) -> (head: Bytes)
    requires
        len <= content(old(buf)).len(),
    ensures
        content(&head) == content(old(buf)).take(len as int),
        content(final(buf)) == content(old(buf)).skip(len as int),
{
    buf.copy_to_bytes(len)
}

/// `Buf::get_u16_le` on a `Bytes`: reads the first two bytes as a
/// little-endian number and advances past them. It panics where fewer than two
/// bytes remain.
#[verifier::external_body]
pub(crate) fn bytes_get_u16_le(buf: &mut Bytes) -> (n: u16)
    requires
        content(old(buf)).len() >= 2,
    ensures
        n == le16(content(old(buf))[0], content(old(buf))[1]),
        content(final(buf)) == content(old(buf)).skip(2),
{
    buf.get_u16_le()
}

/// `byteorder::LittleEndian::read_u16`: the first two bytes of the slice as
/// a little-endian number. It panics on a slice of fewer than two bytes.
#[verifier::external_body]
pub(crate) fn read_u16_le(buf: &[u8]) -> (n: u16)
    requires
        buf@.len() >= 2,
    ensures
        n == le16(buf@[0], buf@[1]),
{
    LittleEndian::read_u16(buf)
}

/// `BytesMut::new`: an empty growable buffer.
#[verifier::external_body]
pub(crate) fn bytes_mut_new() -> (buf: BytesMut)
    ensures
        written(&buf) == Seq::<u8>::empty(),
{
    BytesMut::new()
}

/// `BytesMut::freeze`: the written bytes as an immutable buffer.
#[verifier::external_body]
pub(crate) fn freeze(buf: BytesMut) -> (frozen: Bytes)
    ensures
        content(&frozen) == written(&buf),
{
    buf.freeze()
}

/// `BufMut::put_u8` on a `BytesMut`, which grows as needed: appends one byte.
#[verifier::external_body]
pub(crate) fn put_u8(buf: &mut BytesMut, n: u8)
    ensures
        written(final(buf)) == written(old(buf)).push(n),
{
    buf.put_u8(n)
}

/// `BufMut::put_u16_le` on a `BytesMut`: appends the low byte, then the high
/// byte.
#[verifier::external_body]
pub(crate) fn put_u16_le(buf: &mut BytesMut, n: u16)
    ensures
        written(final(buf)) == written(old(buf)).push(low_byte(n)).push(high_byte(n)),
{
    buf.put_u16_le(n)
}

/// `BufMut::put_slice` on a `BytesMut`: appends the bytes of `src` in order.
#[verifier::external_body]
pub(crate) fn put_slice(buf: &mut BytesMut, src: &[u8])
    ensures
        written(final(buf)) == written(old(buf)) + src@,
{
    buf.put_slice(src)
}

} // verus!
