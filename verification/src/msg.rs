//! Messages: a byte payload that is packed into an encrypted, noise-padded
//! frame, and unpacked from one.
//!
//! A frame is laid out as
//!
//! ```text
//! total_len ^ MAGIC  (u64, big-endian)
//! noise_len ^ MAGIC  (u64, big-endian)
//! noise              (noise_len random bytes)
//! body               (the payload, AES-128-CBC encrypted)
//! ```
//!
//! where `total_len` counts the whole frame: the 16 header bytes, the noise and
//! the body.

use crate::buffer::{
    buffer_as_bytes, buffer_into_vec, buffer_new, buffer_write_bytes, buffer_write_u16,
    buffer_write_u64, buffer_write_u8, byte_buffer_appends_be, byte_buffer_data, lemma_u64_be_roundtrip,
    max_buffer_len, read_u64_be, u16_be_bytes, u64_be_bytes, u64_from_be,
};
use crate::crypto::aes::{aes128_cbc_decrypt, aes128_cbc_encrypt, padded_len, Aes};
use bytebuffer::ByteBuffer;
use rand::Rng;
use vstd::prelude::*;

verus! {

/// The constant that both length fields of a frame header are masked with.
pub const MAGIC: u64 = 0x20240828;

/// The length of a frame header: two 64-bit length fields.
pub const HEADER_LEN: usize = 16;

/// The least number of noise bytes that `pack` puts in a frame.
pub const NOISE_MIN: usize = 100;

/// One more than the largest number of noise bytes that `pack` puts in a frame.
pub const NOISE_MAX: usize = 1000;

/// The frame that carries the (already encrypted) `body` behind `noise`.
pub open spec fn frame_bytes(noise: Seq<u8>, body: Seq<u8>) -> Seq<u8> {
    u64_be_bytes(((noise.len() + body.len() + HEADER_LEN) as u64) ^ MAGIC) + u64_be_bytes(
        (noise.len() as u64) ^ MAGIC,
    ) + noise + body
}

/// The frame that carries `contents`, encrypted under `key` and `iv`, behind
/// `noise`.
pub open spec fn packed_frame(key: Seq<u8>, iv: Seq<u8>, contents: Seq<u8>, noise: Seq<u8>) -> Seq<
    u8,
> {
    frame_bytes(noise, aes128_cbc_encrypt(key, iv, contents))
}

/// The two lengths of a frame header, unmasked.
#[derive(Clone, Copy, Debug, PartialEq, Eq)]
pub struct FrameHeader {
    /// The length of the whole frame, header included.
    pub total_len: u64,
    /// The number of noise bytes that precede the body.
    pub noise_len: u64,
}

/// The header that the first sixteen bytes of `header` encode.
pub open spec fn header_of(header: Seq<u8>) -> FrameHeader {
    FrameHeader {
        total_len: u64_from_be(header.subrange(0, 8)) ^ MAGIC,
        noise_len: u64_from_be(header.subrange(8, 16)) ^ MAGIC,
    }
}

/// The check of a frame header `h` against the payload that follows it:
/// the header must count itself, the payload must have the length that the
/// header gives, the noise must fit in it, and the body after the noise must
/// decrypt under `key` and `iv`; the first of these that fails is the error.
pub open spec fn frame_check(key: Seq<u8>, iv: Seq<u8>, h: FrameHeader, payload: Seq<u8>) -> Result<
    (),
    FrameError,
> {
    if h.total_len < HEADER_LEN {
        Err(FrameError::TooShort)
    } else if payload.len() != h.total_len - HEADER_LEN {
        Err(FrameError::PayloadLength)
    } else if h.noise_len > payload.len() {
        Err(FrameError::NoiseTooLong)
    } else if aes128_cbc_decrypt(
        key,
        iv,
        payload.subrange(h.noise_len as int, payload.len() as int),
    ) is None {
        Err(FrameError::Undecryptable)
    } else {
        Ok(())
    }
}

/// Whether `payload`, the bytes that follow a frame header `h`, is a frame
/// that unpacks under `key` and `iv`.
pub open spec fn frame_valid(key: Seq<u8>, iv: Seq<u8>, h: FrameHeader, payload: Seq<u8>) -> bool {
    frame_check(key, iv, h, payload) is Ok
}

/// The plaintext that a valid frame carries.
pub open spec fn frame_plaintext(key: Seq<u8>, iv: Seq<u8>, h: FrameHeader, payload: Seq<u8>) -> Seq<
    u8,
> {
    aes128_cbc_decrypt(key, iv, payload.subrange(h.noise_len as int, payload.len() as int)).unwrap()
}

/// Whether `frame` is a whole frame that unpacks under `key` and `iv` to
/// `contents`.
pub open spec fn unpacks_to(key: Seq<u8>, iv: Seq<u8>, frame: Seq<u8>, contents: Seq<u8>) -> bool {
    &&& frame.len() >= HEADER_LEN
    &&& frame_valid(key, iv, header_of(frame.take(16)), frame.skip(16))
    &&& frame_plaintext(key, iv, header_of(frame.take(16)), frame.skip(16)) == contents
}

/// Unmasking a masked value gives the value back.
pub proof fn lemma_mask_roundtrip(x: u64)
    ensures
        (x ^ MAGIC) ^ MAGIC == x,
{
    assert((x ^ 0x20240828u64) ^ 0x20240828u64 == x) by (bit_vector);
}

/// A frame unpacks to what its body decrypts to: the header recovers the
/// lengths that it was written with, the noise is skipped, and the body is
/// decrypted.
pub proof fn lemma_frame_roundtrip(
    key: Seq<u8>,
    iv: Seq<u8>,
    noise: Seq<u8>,
    body: Seq<u8>,
    contents: Seq<u8>,
)
    requires
        noise.len() + body.len() + HEADER_LEN <= u64::MAX,
        aes128_cbc_decrypt(key, iv, body) == Some(contents),
    ensures
        unpacks_to(key, iv, frame_bytes(noise, body), contents),
{
    let total = (noise.len() + body.len() + HEADER_LEN) as u64;
    let nl = noise.len() as u64;
    let a = u64_be_bytes(total ^ MAGIC);
    let b = u64_be_bytes(nl ^ MAGIC);
    let f = frame_bytes(noise, body);
    assert(f == a + b + noise + body);
    assert(f.take(16).subrange(0, 8) == a);
    assert(f.take(16).subrange(8, 16) == b);
    lemma_u64_be_roundtrip(total ^ MAGIC);
    lemma_u64_be_roundtrip(nl ^ MAGIC);
    lemma_mask_roundtrip(total);
    lemma_mask_roundtrip(nl);
    let h = header_of(f.take(16));
    assert(h.total_len == total);
    assert(h.noise_len == nl);
    let p = f.skip(16);
    assert(p == noise + body);
    assert(p.subrange(nl as int, p.len() as int) == body);
}

/// Two frames of the same contents under the same key and IV differ only in
/// their header and noise: after those, both carry the same ciphertext.
pub proof fn lemma_frames_share_body(
    key: Seq<u8>,
    iv: Seq<u8>,
    contents: Seq<u8>,
    noise1: Seq<u8>,
    noise2: Seq<u8>,
)
    ensures
        packed_frame(key, iv, contents, noise1).skip(HEADER_LEN + noise1.len())
            == aes128_cbc_encrypt(key, iv, contents),
        packed_frame(key, iv, contents, noise2).skip(HEADER_LEN + noise2.len())
            == aes128_cbc_encrypt(key, iv, contents),
{
    let body = aes128_cbc_encrypt(key, iv, contents);
    let f1 = packed_frame(key, iv, contents, noise1);
    let f2 = packed_frame(key, iv, contents, noise2);
    assert(f1.skip(HEADER_LEN + noise1.len()) =~= body);
    assert(f2.skip(HEADER_LEN + noise2.len()) =~= body);
}

/// The layout of a frame, read off its bytes: the first eight are the
/// big-endian frame length masked with `0x20240828`, the next eight the
/// big-endian noise length masked the same way, then the noise, then the body.
pub proof fn lemma_frame_layout(noise: Seq<u8>, body: Seq<u8>)
    requires
        noise.len() + body.len() + HEADER_LEN <= u64::MAX,
    ensures
        frame_bytes(noise, body).len() == HEADER_LEN + noise.len() + body.len(),
        frame_bytes(noise, body).subrange(0, 8) == u64_be_bytes(
            (frame_bytes(noise, body).len() as u64) ^ 0x20240828u64,
        ),
        frame_bytes(noise, body).subrange(8, 16) == u64_be_bytes(
            (noise.len() as u64) ^ 0x20240828u64,
        ),
        frame_bytes(noise, body).subrange(16, 16 + noise.len() as int) == noise,
        frame_bytes(noise, body).skip(16 + noise.len() as int) == body,
{
    let f = frame_bytes(noise, body);
    let a = u64_be_bytes(((noise.len() + body.len() + HEADER_LEN) as u64) ^ MAGIC);
    let b = u64_be_bytes((noise.len() as u64) ^ MAGIC);
    assert(f == a + b + noise + body);
    assert(f.subrange(0, 8) =~= a);
    assert(f.subrange(8, 16) =~= b);
    assert(f.subrange(16, 16 + noise.len() as int) =~= noise);
    assert(f.skip(16 + noise.len() as int) =~= body);
}

/// Reading a header unmasks both of its fields with `0x20240828`.
pub proof fn lemma_header_unmasks(header: Seq<u8>)
    ensures
        header_of(header).total_len == u64_from_be(header.subrange(0, 8)) ^ 0x20240828u64,
        header_of(header).noise_len == u64_from_be(header.subrange(8, 16)) ^ 0x20240828u64,
{
}

/// Reading the header of a frame gives the frame's length and its noise
/// length.
pub proof fn lemma_header_of_frame(noise: Seq<u8>, body: Seq<u8>)
    requires
        noise.len() + body.len() + HEADER_LEN <= u64::MAX,
    ensures
        header_of(frame_bytes(noise, body).take(16)).total_len == frame_bytes(noise, body).len(),
        header_of(frame_bytes(noise, body).take(16)).noise_len == noise.len(),
{
    let f = frame_bytes(noise, body);
    lemma_frame_layout(noise, body);
    assert(f.take(16).subrange(0, 8) == f.subrange(0, 8));
    assert(f.take(16).subrange(8, 16) == f.subrange(8, 16));
    lemma_u64_be_roundtrip((f.len() as u64) ^ 0x20240828u64);
    lemma_u64_be_roundtrip((noise.len() as u64) ^ 0x20240828u64);
    lemma_mask_roundtrip(f.len() as u64);
    lemma_mask_roundtrip(noise.len() as u64);
}

/// `rand::thread_rng().gen_range(low..high)`: a random value in
/// `low..high`.
#[verifier::external_body]
fn random_in_range(low: usize, high: usize) -> (n: usize)
    requires
        low < high,
    ensures
        low <= n < high,
{
    rand::thread_rng().gen_range(low..high)
}

/// `rand::thread_rng().fill(..)`: overwrites every byte of `buf` with a random
/// one; the length stays.
#[verifier::external_body]
fn fill_random(buf: &mut Vec<u8>)
    ensures
        final(buf)@.len() == old(buf)@.len(),
{
    rand::thread_rng().fill(buf.as_mut_slice())
}

/// Random noise of a random length in `NOISE_MIN..NOISE_MAX`.
fn get_noise() -> (noise: Vec<u8>)
    ensures
        NOISE_MIN <= noise@.len() < NOISE_MAX,
{
    let l = random_in_range(NOISE_MIN, NOISE_MAX);
    let mut noise = vec![0u8; l];
    fill_random(&mut noise);
    noise
}

/// A message: the bytes written into it so far, and the cipher that its frames
/// are encrypted with.
pub struct Message {
    buf: ByteBuffer,
    ciper: Aes,
}

impl View for Message {
    type V = Seq<u8>;

    closed spec fn view(&self) -> Seq<u8> {
        byte_buffer_data(self.buf)
    }
}

impl FrameHeader {
    /// Reads the header from the first sixteen bytes of `header`.
    pub fn parse(header: &[u8]) -> (h: FrameHeader)
        requires
            header@.len() >= HEADER_LEN,
        ensures
            h == header_of(header@.take(16)),
            h.total_len == u64_from_be(header@.subrange(0, 8)) ^ 0x20240828u64,
            h.noise_len == u64_from_be(header@.subrange(8, 16)) ^ 0x20240828u64,
    {
        let total = read_u64_be(header, 0);
        let noise = read_u64_be(header, 8);
        assert(header@.take(16).subrange(0, 8) == header@.subrange(0, 8));
        assert(header@.take(16).subrange(8, 16) == header@.subrange(8, 16));
        FrameHeader { total_len: total ^ MAGIC, noise_len: noise ^ MAGIC }
    }

    /// The number of bytes that follow the header: `None` where the total
    /// length does not even count the header, or does not fit in memory.
    pub fn payload_len(&self) -> (r: Option<usize>)
        ensures
            r == (if self.total_len >= HEADER_LEN && self.total_len - HEADER_LEN <= usize::MAX {
                Some((self.total_len - HEADER_LEN) as usize)
            } else {
                None
            }),
    {
        if self.total_len < 16 {
            None
        } else if self.total_len - 16 > usize::MAX as u64 {
            None
        } else {
            Some((self.total_len - 16) as usize)
        }
    }
}

/// Why a frame could not be unpacked.
#[derive(Clone, Copy, Debug, PartialEq, Eq)]
pub enum FrameError {
    /// The total length is shorter than the header itself.
    TooShort,
    /// The payload does not have the length that the header gives.
    PayloadLength,
    /// The noise is longer than the payload.
    NoiseTooLong,
    /// The body does not decrypt: it is not a whole number of blocks, or its
    /// padding is malformed.
    Undecryptable,
}

impl Message {
    /// The buffer of a message appends what is written to it.
    #[verifier::type_invariant]
    spec fn wf(&self) -> bool {
        byte_buffer_appends_be(self.buf)
    }

    /// The key that this message's frames are encrypted with.
    pub closed spec fn key_bytes(&self) -> Seq<u8> {
        self.ciper.key_bytes()
    }

    /// The IV that this message's frames are encrypted with.
    pub closed spec fn iv_bytes(&self) -> Seq<u8> {
        self.ciper.iv_bytes()
    }

    /// Whether `other` has the cipher of this message.
    pub open spec fn same_cipher(&self, other: &Message) -> bool {
        self.key_bytes() == other.key_bytes() && self.iv_bytes() == other.iv_bytes()
    }

    /// An empty message whose frames are encrypted under `key` and `iv`.
    pub fn new(key: &[u8; 16], iv: &[u8; 16]) -> (m: Message)
        ensures
            m@ == Seq::<u8>::empty(),
            m.key_bytes() == key@,
            m.iv_bytes() == iv@,
    {
        Message { buf: buffer_new(), ciper: Aes::new(*key, *iv) }
    }

    /// Appends one byte.
    pub fn write_u8(&mut self, x: u8)
        requires
            old(self)@.len() + 1 <= max_buffer_len(),
        ensures
            final(self)@ == old(self)@.push(x),
            final(self).same_cipher(old(self)),
    {
        proof {
            use_type_invariant(&*self);
        }
        let mut buf = buffer_new();
        std::mem::swap(&mut buf, &mut self.buf);
        buffer_write_u8(&mut buf, x);
        std::mem::swap(&mut buf, &mut self.buf);
    }

    /// Appends a 16-bit value, big-endian.
    pub fn write_u16(&mut self, x: u16)
        requires
            old(self)@.len() + 2 <= max_buffer_len(),
        ensures
            final(self)@ == old(self)@ + u16_be_bytes(x),
            final(self).same_cipher(old(self)),
    {
        proof {
            use_type_invariant(&*self);
        }
        let mut buf = buffer_new();
        std::mem::swap(&mut buf, &mut self.buf);
        buffer_write_u16(&mut buf, x);
        std::mem::swap(&mut buf, &mut self.buf);
    }

    /// Appends `bytes`.
    pub fn write_bytes(&mut self, bytes: &[u8])
        requires
            old(self)@.len() + bytes@.len() <= max_buffer_len(),
        ensures
            final(self)@ == old(self)@ + bytes@,
            final(self).same_cipher(old(self)),
    {
        proof {
            use_type_invariant(&*self);
        }
        let mut buf = buffer_new();
        std::mem::swap(&mut buf, &mut self.buf);
        buffer_write_bytes(&mut buf, bytes);
        std::mem::swap(&mut buf, &mut self.buf);
    }

    /// The bytes written so far.
    pub fn as_bytes(&self) -> (r: &[u8])
        ensures
            r@ == self@,
    {
        buffer_as_bytes(&self.buf)
    }

    /// Packs the bytes written so far into a frame behind the given `noise`:
    /// the frame unpacks, under this message's cipher, to those bytes.
    pub fn pack_with_noise(&self, noise: &[u8]) -> (r: Vec<u8>)
        requires
            self@.len() + noise@.len() + 48 <= max_buffer_len(),
        ensures
            r@ == packed_frame(self.key_bytes(), self.iv_bytes(), self@, noise@),
            r@.len() == HEADER_LEN + noise@.len() + padded_len(self@.len()),
            r@.subrange(0, 8) == u64_be_bytes((r@.len() as u64) ^ 0x20240828u64),
            r@.subrange(8, 16) == u64_be_bytes((noise@.len() as u64) ^ 0x20240828u64),
            r@.subrange(16, 16 + noise@.len() as int) == noise@,
            r@.skip(16 + noise@.len() as int) == aes128_cbc_encrypt(
                self.key_bytes(),
                self.iv_bytes(),
                self@,
            ),
            unpacks_to(self.key_bytes(), self.iv_bytes(), r@, self@),
    {
        let body = buffer_as_bytes(&self.buf);
        let body = self.ciper.encrypt(body);
        let body_len = body.len() as u64;
        let noise_len = noise.len() as u64;
        let total_len = noise_len + body_len + 16;
        let encrypt_total_len = total_len ^ MAGIC;
        let encrypt_noise_len = noise_len ^ MAGIC;
        let mut block = buffer_new();
        buffer_write_u64(&mut block, encrypt_total_len);
        buffer_write_u64(&mut block, encrypt_noise_len);
        buffer_write_bytes(&mut block, noise);
        buffer_write_bytes(&mut block, &body);
        proof {
            lemma_frame_roundtrip(self.key_bytes(), self.iv_bytes(), noise@, body@, self@);
            lemma_frame_layout(noise@, body@);
        }
        buffer_into_vec(block)
    }

    /// Packs the bytes written so far into a frame behind random noise of
    /// `NOISE_MIN..NOISE_MAX` bytes: the frame unpacks, under this message's
    /// cipher, to those bytes.
    pub fn pack(&mut self) -> (r: Vec<u8>)
        requires
            old(self)@.len() + NOISE_MAX + 48 <= max_buffer_len(),
        ensures
            *final(self) == *old(self),
            exists|noise: Seq<u8>|
                NOISE_MIN <= noise.len() < NOISE_MAX && r@ == packed_frame(
                    old(self).key_bytes(),
                    old(self).iv_bytes(),
                    old(self)@,
                    noise,
                ) && r@.len() == HEADER_LEN + noise.len() + padded_len(old(self)@.len())
                    && r@.subrange(8, 16) == u64_be_bytes((noise.len() as u64) ^ 0x20240828u64)
                    && r@.subrange(16, 16 + noise.len() as int) == noise && r@.skip(16 + noise.len() as int)
                    == aes128_cbc_encrypt(old(self).key_bytes(), old(self).iv_bytes(), old(self)@),
            r@.len() >= HEADER_LEN,
            r@.subrange(0, 8) == u64_be_bytes((r@.len() as u64) ^ 0x20240828u64),
            unpacks_to(old(self).key_bytes(), old(self).iv_bytes(), r@, old(self)@),
    {
        let noise = get_noise();
        self.pack_with_noise(&noise)
    }

    /// Unpacks a frame, given its header and the payload that follows it, and
    /// appends the plaintext that it carries. The frame must be valid.
    pub fn unpack(&mut self, header: &FrameHeader, payload: &[u8])
        requires
            frame_valid(old(self).key_bytes(), old(self).iv_bytes(), *header, payload@),
            old(self)@.len() + payload@.len() <= max_buffer_len(),
        ensures
            final(self).same_cipher(old(self)),
            final(self)@ == old(self)@ + frame_plaintext(
                old(self).key_bytes(),
                old(self).iv_bytes(),
                *header,
                payload@,
            ),
    {
        proof {
            use_type_invariant(&*self);
        }
        let noise_len = header.noise_len as usize;
        let body = vstd::slice::slice_subrange(payload, noise_len, payload.len());
        let plain = self.ciper.decrypt(body);
        let mut buf = buffer_new();
        std::mem::swap(&mut buf, &mut self.buf);
        buffer_write_bytes(&mut buf, &plain);
        std::mem::swap(&mut buf, &mut self.buf);
    }

    /// Unpacks a frame where it is valid, as `unpack` does, and otherwise says
    /// why it is not and leaves the message as it was.
    pub fn try_unpack(&mut self, header: &FrameHeader, payload: &[u8]) -> (r: Result<(), FrameError>)
        requires
            old(self)@.len() + payload@.len() <= max_buffer_len(),
        ensures
            final(self).same_cipher(old(self)),
            r == frame_check(old(self).key_bytes(), old(self).iv_bytes(), *header, payload@),
            r is Ok ==> final(self)@ == old(self)@ + frame_plaintext(
                old(self).key_bytes(),
                old(self).iv_bytes(),
                *header,
                payload@,
            ),
            r is Err ==> *final(self) == *old(self),
    {
        if header.total_len < 16 {
            return Err(FrameError::TooShort);
        }
        if payload.len() as u64 != header.total_len - 16 {
            return Err(FrameError::PayloadLength);
        }
        if header.noise_len > payload.len() as u64 {
            return Err(FrameError::NoiseTooLong);
        }
        let noise_len = header.noise_len as usize;
        let body = vstd::slice::slice_subrange(payload, noise_len, payload.len());
        match self.ciper.try_decrypt(body) {
            None => Err(FrameError::Undecryptable),
            Some(_) => {
                self.unpack(header, payload);
                Ok(())
            },
        }
    }
}

} // verus!
