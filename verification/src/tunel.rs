//! The tunnel as free functions, with a mode of its own; each takes the key and
//! IV of the tunnel's frames.

use crate::buffer::max_buffer_len;
use crate::crypto::aes::padded_len;
use crate::msg::{packed_frame, unpacks_to, FrameHeader, HEADER_LEN, NOISE_MAX, NOISE_MIN};
use crate::tunnel::{decrypted_read, ReadError, Tunel};
use vstd::prelude::*;

verus! {

/// The size of the buffer that a tunnel reads into.
pub const BUF_SIZE: usize = 4096;

/// Tunnel mode.
#[derive(Clone, Copy, Debug, PartialEq, Eq, Structural)]
pub enum Mode {
    FORWARD,
    ENCRYPT,
    DECRYPT,
}

/// The mode of the opposite direction: encrypting and decrypting swap,
/// forwarding stays.
pub open spec fn reversed(mode: Mode) -> Mode {
    match mode {
        Mode::FORWARD => Mode::FORWARD,
        Mode::ENCRYPT => Mode::DECRYPT,
        Mode::DECRYPT => Mode::ENCRYPT,
    }
}

/// The mode of the opposite direction of a tunnel.
pub fn reverse(mode: &Mode) -> (r: Mode)
    ensures
        r == reversed(*mode),
{
    match mode {
        Mode::FORWARD => Mode::FORWARD,
        Mode::ENCRYPT => Mode::DECRYPT,
        Mode::DECRYPT => Mode::ENCRYPT,
    }
}

/// Reversing twice gives the mode back.
pub proof fn lemma_reverse_involution(mode: Mode)
    ensures
        reversed(reversed(mode)) == mode,
{
}

/// A read in `DECRYPT` mode, given the header and payload of the frame read:
/// unpacks the frame under `key` and `iv` and copies its plaintext to the
/// front of `buf`, giving its length; fails where the frame does not unpack or
/// the plaintext does not fit in `buf`, which then stays as it was.
pub fn read(key: &[u8; 16], iv: &[u8; 16], header: &FrameHeader, payload: &[u8], buf: &mut [u8]) -> (r:
    Result<usize, ReadError>)
    requires
        payload@.len() <= max_buffer_len(),
    ensures
        final(buf)@.len() == old(buf)@.len(),
        match decrypted_read(key@, iv@, *header, payload@, old(buf)@.len()) {
            Ok(bytes) => r == Ok::<usize, ReadError>(bytes.len() as usize) && final(buf)@ == bytes
                + old(buf)@.skip(bytes.len() as int),
            Err(e) => r == Err::<usize, ReadError>(e) && final(buf)@ == old(buf)@,
        },
{
    let tunel = Tunel::new(*key, *iv);
    tunel.read(header, payload, buf)
}

/// What the tunnel sends on for a chunk read in `mode`: in `ENCRYPT` mode a
/// frame that unpacks, under `key` and `iv`, to the chunk; otherwise the chunk
/// itself.
pub fn outgoing(key: &[u8; 16], iv: &[u8; 16], mode: Mode, chunk: &[u8]) -> (r: Vec<u8>)
    requires
        chunk@.len() + NOISE_MAX + 48 <= max_buffer_len(),
    ensures
        mode != Mode::ENCRYPT ==> r@ == chunk@,
        mode == Mode::ENCRYPT ==> exists|noise: Seq<u8>|
            NOISE_MIN <= noise.len() < NOISE_MAX && r@ == packed_frame(key@, iv@, chunk@, noise)
                && r@.len() == HEADER_LEN + noise.len() + padded_len(chunk@.len()),
        mode == Mode::ENCRYPT ==> unpacks_to(key@, iv@, r@, chunk@),
{
    let tunel = Tunel::new(*key, *iv);
    let m = match mode {
        Mode::FORWARD => crate::tunnel::Mode::FORWARD,
        Mode::ENCRYPT => crate::tunnel::Mode::ENCRYPT,
        Mode::DECRYPT => crate::tunnel::Mode::DECRYPT,
    };
    tunel.outgoing(m, chunk)
}

/// The key and IV of a tunnel that needs no secrets: all zero.
pub fn zero_secret() -> (r: ([u8; 16], [u8; 16]))
    ensures
        r.0@ == Seq::new(16, |i: int| 0u8),
        r.1@ == Seq::new(16, |i: int| 0u8),
{
    let r = ([0u8; 16], [0u8; 16]);
    assert(r.0@ =~= Seq::new(16, |i: int| 0u8));
    assert(r.1@ =~= Seq::new(16, |i: int| 0u8));
    r
}

/// The names of the environment variables that hold the key and the IV of a
/// tunnel in `mode`; a forwarding tunnel needs none (its key and IV are zero).
pub fn secret_env_names(mode: &Mode) -> (r: Option<(&'static str, &'static str)>)
    ensures
        r is None <==> *mode == Mode::FORWARD,
        *mode == Mode::ENCRYPT ==> (r matches Some((k, i)) && k@ == "MSG800_TUNEL_ENC_KEY"@
            && i@ == "MSG800_TUNEL_ENC_IV"@),
        *mode == Mode::DECRYPT ==> (r matches Some((k, i)) && k@ == "MSG800_TUNEL_DEC_KEY"@
            && i@ == "MSG800_TUNEL_DEC_IV"@),
{
    match mode {
        Mode::ENCRYPT => Some(("MSG800_TUNEL_ENC_KEY", "MSG800_TUNEL_ENC_IV")),
        Mode::DECRYPT => Some(("MSG800_TUNEL_DEC_KEY", "MSG800_TUNEL_DEC_IV")),
        Mode::FORWARD => None,
    }
}

/// A 16-byte secret from the bytes of its text: `None` unless there are
/// exactly 16 of them.
pub fn secret_from_bytes(bytes: &[u8]) -> (r: Option<[u8; 16]>)
    ensures
        r is Some <==> bytes@.len() == 16,
        r matches Some(a) ==> a@ == bytes@,
{
    if bytes.len() != 16 {
        return None;
    }
    let mut a = [0u8; 16];
    for i in 0..16
        invariant
            bytes@.len() == 16,
            forall|j: int| 0 <= j < i ==> a@[j] == bytes@[j],
    {
        a[i] = bytes[i];
    }
    assert(a@ =~= bytes@);
    Some(a)
}

} // verus!
