//! A growable byte buffer (`bytebuffer::ByteBuffer`) seen through its contents,
//! and the big-endian encodings that it writes.

use bytebuffer::ByteBuffer;
use vstd::prelude::*;

verus! {

#[verifier::external_type_specification]
#[verifier::external_body]
pub struct ExByteBuffer(ByteBuffer);

/// The bytes that a `ByteBuffer` holds (its `data` vector).
pub uninterp spec fn byte_buffer_data(buf: ByteBuffer) -> Seq<u8>;

/// Whether the next write of a `ByteBuffer` appends, in big-endian order: its
/// write cursor stands at the end of its data, no bit-level write is pending,
/// and its byte order is big-endian (the order of a new buffer).
pub uninterp spec fn byte_buffer_appends_be(buf: ByteBuffer) -> bool;

/// The largest number of bytes that a buffer is allowed to grow to.
pub open spec fn max_buffer_len() -> int {
    isize::MAX as int
}

/// The big-endian encoding of a 16-bit value.
pub open spec fn u16_be_bytes(x: u16) -> Seq<u8> {
    seq![(x >> 8u16) as u8, x as u8]
}

/// The 16-bit value whose big-endian encoding is the first two bytes of `b`.
pub open spec fn u16_from_be(b: Seq<u8>) -> u16 {
    ((b[0] as u16) << 8u16) | (b[1] as u16)
}

/// Encoding a 16-bit value read from two bytes gives the two bytes back.
pub proof fn lemma_u16_be_from_bytes(b: Seq<u8>)
    requires
        b.len() == 2,
    ensures
        u16_be_bytes(u16_from_be(b)) == b,
{
    let b0 = b[0];
    let b1 = b[1];
    let x = u16_from_be(b);
    assert(((((b0 as u16) << 8u16) | (b1 as u16)) >> 8u16) as u8 == b0 && ((((b0 as u16) << 8u16)
        | (b1 as u16)) as u8) == b1) by (bit_vector);
    assert(u16_be_bytes(x) =~= b);
}

/// Reads the 16-bit big-endian value that starts at `at` in `bytes`.
pub fn read_u16_be(bytes: &[u8], at: usize) -> (r: u16)
    requires
        at + 2 <= bytes@.len(),
    ensures
        r == u16_from_be(bytes@.subrange(at as int, at + 2)),
{
    let b0 = bytes[at] as u16;
    let b1 = bytes[at + 1] as u16;
    (b0 << 8u16) | b1
}

/// The big-endian encoding of a 64-bit value.
pub open spec fn u64_be_bytes(x: u64) -> Seq<u8> {
    seq![
        (x >> 56u64) as u8,
        (x >> 48u64) as u8,
        (x >> 40u64) as u8,
        (x >> 32u64) as u8,
        (x >> 24u64) as u8,
        (x >> 16u64) as u8,
        (x >> 8u64) as u8,
        x as u8,
    ]
}

/// The 64-bit value whose big-endian encoding is the first eight bytes of `b`.
pub open spec fn u64_from_be(b: Seq<u8>) -> u64 {
    ((b[0] as u64) << 56u64) | ((b[1] as u64) << 48u64) | ((b[2] as u64) << 40u64) | ((
    b[3] as u64) << 32u64) | ((b[4] as u64) << 24u64) | ((b[5] as u64) << 16u64) | ((
    b[6] as u64) << 8u64) | (b[7] as u64)
}

/// Reading back the big-endian encoding of a 64-bit value gives the value.
pub proof fn lemma_u64_be_roundtrip(x: u64)
    ensures
        u64_from_be(u64_be_bytes(x)) == x,
{
    let b = u64_be_bytes(x);
    let b0 = (x >> 56u64) as u8;
    let b1 = (x >> 48u64) as u8;
    let b2 = (x >> 40u64) as u8;
    let b3 = (x >> 32u64) as u8;
    let b4 = (x >> 24u64) as u8;
    let b5 = (x >> 16u64) as u8;
    let b6 = (x >> 8u64) as u8;
    let b7 = x as u8;
    assert(b[0] == b0 && b[1] == b1 && b[2] == b2 && b[3] == b3 && b[4] == b4 && b[5] == b5
        && b[6] == b6 && b[7] == b7);
    assert(((b0 as u64) << 56u64) | ((b1 as u64) << 48u64) | ((b2 as u64) << 40u64) | ((
    b3 as u64) << 32u64) | ((b4 as u64) << 24u64) | ((b5 as u64) << 16u64) | ((b6 as u64)
        << 8u64) | (b7 as u64) == x) by (bit_vector)
        requires
            b0 == (x >> 56u64) as u8,
            b1 == (x >> 48u64) as u8,
            b2 == (x >> 40u64) as u8,
            b3 == (x >> 32u64) as u8,
            b4 == (x >> 24u64) as u8,
            b5 == (x >> 16u64) as u8,
            b6 == (x >> 8u64) as u8,
            b7 == x as u8,
    ;
}

/// Reads the 64-bit big-endian value that starts at `at` in `bytes`.
pub fn read_u64_be(bytes: &[u8], at: usize) -> (r: u64)
    requires
        at + 8 <= bytes@.len(),
    ensures
        r == u64_from_be(bytes@.subrange(at as int, at + 8)),
{
    let b0 = bytes[at] as u64;
    let b1 = bytes[at + 1] as u64;
    let b2 = bytes[at + 2] as u64;
    let b3 = bytes[at + 3] as u64;
    let b4 = bytes[at + 4] as u64;
    let b5 = bytes[at + 5] as u64;
    let b6 = bytes[at + 6] as u64;
    let b7 = bytes[at + 7] as u64;
    (b0 << 56u64) | (b1 << 48u64) | (b2 << 40u64) | (b3 << 32u64) | (b4 << 24u64) | (b5 << 16u64)
        | (b6 << 8u64) | b7
}

/// `ByteBuffer::new`: an empty, big-endian buffer, whose writes append.
#[verifier::external_body]
pub(crate) fn buffer_new() -> (buf: ByteBuffer)
    ensures
        byte_buffer_data(buf) == Seq::<u8>::empty(),
        byte_buffer_appends_be(buf),
{
    ByteBuffer::new()
}

/// `ByteBuffer::write_bytes`: on a buffer whose writes append, the bytes are
/// added at the end.
#[verifier::external_body]
pub(crate) fn buffer_write_bytes(buf: &mut ByteBuffer, bytes: &[u8])
    requires
        byte_buffer_appends_be(*old(buf)),
        byte_buffer_data(*old(buf)).len() + bytes@.len() <= max_buffer_len(),
    ensures
        byte_buffer_data(*final(buf)) == byte_buffer_data(*old(buf)) + bytes@,
        byte_buffer_appends_be(*final(buf)),
{
    buf.write_bytes(bytes)
}

/// `ByteBuffer::write_u8`: on a buffer whose writes append, the byte is added
/// at the end.
#[verifier::external_body]
pub(crate) fn buffer_write_u8(buf: &mut ByteBuffer, x: u8)
    requires
        byte_buffer_appends_be(*old(buf)),
        byte_buffer_data(*old(buf)).len() + 1 <= max_buffer_len(),
    ensures
        byte_buffer_data(*final(buf)) == byte_buffer_data(*old(buf)).push(x),
        byte_buffer_appends_be(*final(buf)),
{
    buf.write_u8(x)
}

/// `ByteBuffer::write_u16`: on a big-endian buffer whose writes append, the
/// two big-endian bytes of `x` are added at the end.
#[verifier::external_body]
pub(crate) fn buffer_write_u16(buf: &mut ByteBuffer, x: u16)
    requires
        byte_buffer_appends_be(*old(buf)),
        byte_buffer_data(*old(buf)).len() + 2 <= max_buffer_len(),
    ensures
        byte_buffer_data(*final(buf)) == byte_buffer_data(*old(buf)) + u16_be_bytes(x),
        byte_buffer_appends_be(*final(buf)),
{
    buf.write_u16(x)
}

/// `ByteBuffer::write_u64`: on a big-endian buffer whose writes append, the
/// eight big-endian bytes of `x` are added at the end.
#[verifier::external_body]
pub(crate) fn buffer_write_u64(buf: &mut ByteBuffer, x: u64)
    requires
        byte_buffer_appends_be(*old(buf)),
        byte_buffer_data(*old(buf)).len() + 8 <= max_buffer_len(),
    ensures
        byte_buffer_data(*final(buf)) == byte_buffer_data(*old(buf)) + u64_be_bytes(x),
        byte_buffer_appends_be(*final(buf)),
{
    buf.write_u64(x)
}

/// `ByteBuffer::as_bytes`: all the bytes that the buffer holds.
#[verifier::external_body]
pub(crate) fn buffer_as_bytes(buf: &ByteBuffer) -> (r: &[u8])
    ensures
        r@ == byte_buffer_data(*buf),
{
    buf.as_bytes()
}

/// `ByteBuffer::into_vec`: all the bytes that the buffer holds, as a vector.
#[verifier::external_body]
pub(crate) fn buffer_into_vec(buf: ByteBuffer) -> (r: Vec<u8>)
    ensures
        r@ == byte_buffer_data(buf),
{
    buf.into_vec()
}

} // verus!
