//! A tunnel between two TCP streams: what it forwards in each mode.
//!
//! In `ENCRYPT` mode each chunk read from the source is packed into a frame
//! (see `msg`); in `DECRYPT` mode each frame read from the source is unpacked
//! and its plaintext forwarded; in `FORWARD` mode chunks pass unchanged. The
//! opposite direction of a tunnel runs in the reverse mode.

use crate::buffer::max_buffer_len;
use crate::crypto::aes::padded_len;
use crate::msg::{
    frame_check, frame_plaintext, header_of, packed_frame, unpacks_to, FrameError, FrameHeader,
    Message, HEADER_LEN, NOISE_MAX, NOISE_MIN,
};
use vstd::prelude::*;

verus! {

/// The size of the buffer that a tunnel reads into.
pub const BUF_SIZE: usize = 4096;

/// Tunnel mode.
#[derive(Clone, Copy, Debug, PartialEq, Eq, Structural)]
pub enum Mode {
    /// forward data without any encoding/decoding
    FORWARD,
    /// encrypt data
    ENCRYPT,
    /// decrypt data
    DECRYPT,
}

/// The mode of the opposite direction: encrypting and decrypting swap,
/// forwarding stays.
pub open spec fn reversed(mode: Mode) -> Mode {
    match mode {
        Mode::FORWARD => Mode::FORWARD,
        Mode::ENCRYPT => Mode::DECRYPT,
        Mode::DECRYPT => Mode::ENCRYPT,
    }
}

/// The mode of the opposite direction of a tunnel.
pub fn reverse(mode: &Mode) -> (r: Mode)
    ensures
        r == reversed(*mode),
{
    match mode {
        Mode::FORWARD => Mode::FORWARD,
        Mode::ENCRYPT => Mode::DECRYPT,
        Mode::DECRYPT => Mode::ENCRYPT,
    }
}

/// Reversing twice gives the mode back.
pub proof fn lemma_reverse_involution(mode: Mode)
    ensures
        reversed(reversed(mode)) == mode,
{
}

/// Why a decrypting read failed.
#[derive(Clone, Copy, Debug, PartialEq, Eq)]
pub enum ReadError {
    /// The frame read does not unpack.
    Frame(FrameError),
    /// The plaintext does not fit in the read buffer ("buf too small!").
    BufTooSmall,
}

/// What a decrypting read of the frame with header `h` and payload `payload`
/// gives into a buffer of `buf_len` bytes: the plaintext, or why not.
pub open spec fn decrypted_read(
    key: Seq<u8>,
    iv: Seq<u8>,
    h: FrameHeader,
    payload: Seq<u8>,
    buf_len: nat,
) -> Result<Seq<u8>, ReadError> {
    match frame_check(key, iv, h, payload) {
        Err(e) => Err(ReadError::Frame(e)),
        Ok(()) => if frame_plaintext(key, iv, h, payload).len() > buf_len {
            Err(ReadError::BufTooSmall)
        } else {
            Ok(frame_plaintext(key, iv, h, payload))
        },
    }
}

/// A tunnel between two TCP streams, with the key and IV of its frames.
pub struct Tunel {
    key: [u8; 16],
    iv: [u8; 16],
}

impl Tunel {
    /// The key of this tunnel's frames.
    pub closed spec fn key_bytes(&self) -> Seq<u8> {
        self.key@
    }

    /// The IV of this tunnel's frames.
    pub closed spec fn iv_bytes(&self) -> Seq<u8> {
        self.iv@
    }

    /// A tunnel whose frames are encrypted under `key` and `iv`.
    pub fn new(key: [u8; 16], iv: [u8; 16]) -> (t: Self)
        ensures
            t.key_bytes() == key@,
            t.iv_bytes() == iv@,
    {
        Self { key, iv }
    }

    /// A read in `DECRYPT` mode, given the header and payload of the frame
    /// read: unpacks the frame and copies its plaintext to the front of `buf`,
    /// giving its length; fails where the frame does not unpack or the
    /// plaintext does not fit in `buf`, which then stays as it was.
    pub fn read(&self, header: &FrameHeader, payload: &[u8], buf: &mut [u8]) -> (r: Result<
        usize,
        ReadError,
    >)
        requires
            payload@.len() <= max_buffer_len(),
        ensures
            final(buf)@.len() == old(buf)@.len(),
            match decrypted_read(
                self.key_bytes(),
                self.iv_bytes(),
                *header,
                payload@,
                old(buf)@.len(),
            ) {
                Ok(bytes) => r == Ok::<usize, ReadError>(bytes.len() as usize) && final(buf)@ == bytes
                    + old(buf)@.skip(bytes.len() as int),
                Err(e) => r == Err::<usize, ReadError>(e) && final(buf)@ == old(buf)@,
            },
    {
        let mut msg = Message::new(&self.key, &self.iv);
        match msg.try_unpack(header, payload) {
            Err(e) => {
                return Err(ReadError::Frame(e));
            },
            Ok(()) => {},
        }
        let bytes = msg.as_bytes();
        if bytes.len() > buf.len() {
            Err(ReadError::BufTooSmall)
        } else {
            let n = bytes.len();
            let ghost before = buf@;
            for i in 0..n
                invariant
                    n == bytes@.len(),
                    n <= buf@.len(),
                    buf@.len() == before.len(),
                    forall|j: int| 0 <= j < i ==> buf@[j] == bytes@[j],
                    forall|j: int| i <= j < buf@.len() ==> buf@[j] == before[j],
            {
                buf[i] = bytes[i];
            }
            assert(buf@ == bytes@ + before.skip(n as int));
            Ok(n)
        }
    }

    /// What the tunnel sends on for a chunk read in `mode`: in `ENCRYPT`
    /// mode a frame that unpacks, under this tunnel's key and IV, to the
    /// chunk; otherwise the chunk itself.
    pub fn outgoing(&self, mode: Mode, chunk: &[u8]) -> (r: Vec<u8>)
        requires
            chunk@.len() + NOISE_MAX + 48 <= max_buffer_len(),
        ensures
            mode != Mode::ENCRYPT ==> r@ == chunk@,
            mode == Mode::ENCRYPT ==> exists|noise: Seq<u8>|
                NOISE_MIN <= noise.len() < NOISE_MAX && r@ == packed_frame(
                    self.key_bytes(),
                    self.iv_bytes(),
                    chunk@,
                    noise,
                ) && r@.len() == HEADER_LEN + noise.len() + padded_len(chunk@.len()),
            mode == Mode::ENCRYPT ==> unpacks_to(self.key_bytes(), self.iv_bytes(), r@, chunk@),
    {
        match mode {
            Mode::FORWARD => vstd::slice::slice_to_vec(chunk),
            Mode::ENCRYPT => {
                let mut msg = Message::new(&self.key, &self.iv);
                msg.write_bytes(chunk);
                assert(msg@ == chunk@);
                let r = msg.pack();
                proof {
                    let noise = choose|noise: Seq<u8>|
                        NOISE_MIN <= noise.len() < NOISE_MAX && r@ == packed_frame(
                            msg.key_bytes(),
                            msg.iv_bytes(),
                            msg@,
                            noise,
                        ) && r@.len() == HEADER_LEN + noise.len() + padded_len(msg@.len());
                    assert(r@ == packed_frame(self.key_bytes(), self.iv_bytes(), chunk@, noise));
                    assert(r@.len() == HEADER_LEN + noise.len() + padded_len(chunk@.len()));
                }
                r
            },
            Mode::DECRYPT => vstd::slice::slice_to_vec(chunk),
        }
    }
}

/// What one direction of a tunnel does after a read.
pub enum PipeAction {
    /// Write these bytes to the destination, then read again.
    Send(Vec<u8>),
    /// Shut the destination down; the direction is over.
    Shutdown,
}

impl Tunel {
    /// The step of one direction of a tunnel in `mode`: after a read that gave
    /// a non-empty `chunk`, send on what `outgoing` gives for it; after a read
    /// that gave no bytes (the end of the stream) or failed (`None`), shut the
    /// destination down.
    pub fn pipe_step(&self, mode: Mode, read: Option<&[u8]>) -> (r: PipeAction)
        requires
            read matches Some(chunk) ==> chunk@.len() + NOISE_MAX + 48 <= max_buffer_len(),
        ensures
            match read {
                Some(chunk) => if chunk@.len() > 0 {
                    &&& r matches PipeAction::Send(out)
                    &&& mode != Mode::ENCRYPT ==> out@ == chunk@
                    &&& mode == Mode::ENCRYPT ==> unpacks_to(
                        self.key_bytes(),
                        self.iv_bytes(),
                        out@,
                        chunk@,
                    )
                    &&& mode == Mode::ENCRYPT ==> exists|noise: Seq<u8>|
                        NOISE_MIN <= noise.len() < NOISE_MAX && out@ == packed_frame(
                            self.key_bytes(),
                            self.iv_bytes(),
                            chunk@,
                            noise,
                        ) && out@.len() == HEADER_LEN + noise.len() + padded_len(chunk@.len())
                } else {
                    r is Shutdown
                },
                None => r is Shutdown,
            },
    {
        match read {
            Some(chunk) => {
                if chunk.len() > 0 {
                    PipeAction::Send(self.outgoing(mode, chunk))
                } else {
                    PipeAction::Shutdown
                }
            },
            None => PipeAction::Shutdown,
        }
    }
}

/// A chunk that one end of a tunnel sends in `ENCRYPT` mode is read back whole
/// by the other end in `DECRYPT` mode, with the same key and IV, into a buffer
/// of `BUF_SIZE` bytes: the payload after the header has the length that the
/// header gives, and the read gives exactly the chunk.
pub proof fn lemma_decrypting_end_reads_chunk(
    key: Seq<u8>,
    iv: Seq<u8>,
    frame: Seq<u8>,
    chunk: Seq<u8>,
)
    requires
        chunk.len() <= BUF_SIZE,
        unpacks_to(key, iv, frame, chunk),
    ensures
        header_of(frame.take(16)).total_len == frame.len(),
        decrypted_read(key, iv, header_of(frame.take(16)), frame.skip(16), BUF_SIZE as nat) == Ok::<
            Seq<u8>,
            ReadError,
        >(chunk),
{
}

} // verus!
