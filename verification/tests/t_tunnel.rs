use msg800::msg::{FrameError, FrameHeader, Message};
use msg800::tunel;
use msg800::tunnel::{reverse, Mode, PipeAction, ReadError, Tunel, BUF_SIZE};

const KEY: [u8; 16] = *b"0123456789abcdef";
const IV: [u8; 16] = *b"fedcba9876543210";

fn split_frame(frame: &[u8]) -> (FrameHeader, &[u8]) {
    (FrameHeader::parse(&frame[..16]), &frame[16..])
}

#[test]
fn reverse_swaps_encrypt_and_decrypt() {
    assert_eq!(reverse(&Mode::FORWARD), Mode::FORWARD);
    assert_eq!(reverse(&Mode::ENCRYPT), Mode::DECRYPT);
    assert_eq!(reverse(&Mode::DECRYPT), Mode::ENCRYPT);
    for m in [Mode::FORWARD, Mode::ENCRYPT, Mode::DECRYPT] {
        assert_eq!(reverse(&reverse(&m)), m);
    }
}

#[test]
fn tunel_reverse_swaps_encrypt_and_decrypt() {
    assert_eq!(tunel::reverse(&tunel::Mode::FORWARD), tunel::Mode::FORWARD);
    assert_eq!(tunel::reverse(&tunel::Mode::ENCRYPT), tunel::Mode::DECRYPT);
    assert_eq!(tunel::reverse(&tunel::Mode::DECRYPT), tunel::Mode::ENCRYPT);
    for m in [tunel::Mode::FORWARD, tunel::Mode::ENCRYPT, tunel::Mode::DECRYPT] {
        assert_eq!(tunel::reverse(&tunel::reverse(&m)), m);
    }
}

#[test]
fn forward_and_decrypt_pass_chunks_unchanged() {
    let t = Tunel::new(KEY, IV);
    assert_eq!(t.outgoing(Mode::FORWARD, b"abc"), b"abc".to_vec());
    assert_eq!(t.outgoing(Mode::DECRYPT, b"abc"), b"abc".to_vec());
}

#[test]
fn encrypt_then_decrypt_recovers_chunk() {
    let t = Tunel::new(KEY, IV);
    let chunk: Vec<u8> = (0..BUF_SIZE).map(|i| (i % 251) as u8).collect();
    let frame = t.outgoing(Mode::ENCRYPT, &chunk);
    assert_ne!(frame, chunk);
    let (header, payload) = split_frame(&frame);
    assert_eq!(header.payload_len(), Some(payload.len()));
    let mut buf = [0u8; BUF_SIZE];
    assert_eq!(t.read(&header, payload, &mut buf), Ok(BUF_SIZE));
    assert_eq!(&buf[..], &chunk[..]);
}

#[test]
fn read_copies_to_front_of_buffer() {
    let t = Tunel::new(KEY, IV);
    let frame = t.outgoing(Mode::ENCRYPT, b"hi");
    let (header, payload) = split_frame(&frame);
    let mut buf = [9u8; 5];
    assert_eq!(t.read(&header, payload, &mut buf), Ok(2));
    assert_eq!(buf, [b'h', b'i', 9, 9, 9]);
}

#[test]
fn read_reports_buffer_too_small() {
    let t = Tunel::new(KEY, IV);
    let mut msg = Message::new(&KEY, &IV);
    msg.write_bytes(b"hello");
    let frame = msg.pack();
    let (header, payload) = split_frame(&frame);
    let mut buf = [0u8; 4];
    assert_eq!(t.read(&header, payload, &mut buf), Err(ReadError::BufTooSmall));
    assert_eq!(buf, [0u8; 4]);
}

#[test]
fn read_reports_invalid_frame() {
    let t = Tunel::new(KEY, IV);
    let mut buf = [0u8; 8];
    let header = FrameHeader { total_len: 3, noise_len: 0 };
    assert_eq!(t.read(&header, &[], &mut buf), Err(ReadError::Frame(FrameError::TooShort)));
}

#[test]
fn tunel_functions_match_tunnel() {
    let frame = tunel::outgoing(&KEY, &IV, tunel::Mode::ENCRYPT, b"chunk");
    let (header, payload) = split_frame(&frame);
    let mut buf = [0u8; 16];
    assert_eq!(tunel::read(&KEY, &IV, &header, payload, &mut buf), Ok(5));
    assert_eq!(&buf[..5], b"chunk");
    assert_eq!(tunel::outgoing(&KEY, &IV, tunel::Mode::FORWARD, b"x"), b"x".to_vec());
}

#[test]
fn secret_env_names_per_mode() {
    assert_eq!(
        tunel::secret_env_names(&tunel::Mode::ENCRYPT),
        Some(("MSG800_TUNEL_ENC_KEY", "MSG800_TUNEL_ENC_IV"))
    );
    assert_eq!(
        tunel::secret_env_names(&tunel::Mode::DECRYPT),
        Some(("MSG800_TUNEL_DEC_KEY", "MSG800_TUNEL_DEC_IV"))
    );
    assert_eq!(tunel::secret_env_names(&tunel::Mode::FORWARD), None);
}

#[test]
fn zero_secret_is_all_zero() {
    assert_eq!(tunel::zero_secret(), ([0u8; 16], [0u8; 16]));
}

#[test]
fn outgoing_accepts_chunks_larger_than_the_read_buffer() {
    let t = Tunel::new(KEY, IV);
    let chunk = vec![3u8; BUF_SIZE * 2 + 5];
    let frame = t.outgoing(Mode::ENCRYPT, &chunk);
    let (header, payload) = split_frame(&frame);
    let mut msg = Message::new(&KEY, &IV);
    assert_eq!(msg.try_unpack(&header, payload), Ok(()));
    assert_eq!(msg.as_bytes(), &chunk[..]);
}

#[test]
fn secret_from_bytes_needs_sixteen() {
    assert_eq!(tunel::secret_from_bytes(b"0123456789abcdef"), Some(*b"0123456789abcdef"));
    assert_eq!(tunel::secret_from_bytes(b"short"), None);
    assert_eq!(tunel::secret_from_bytes(b"0123456789abcdefg"), None);
}

#[test]
fn pipe_step_sends_or_shuts_down() {
    let t = Tunel::new(KEY, IV);
    assert!(matches!(t.pipe_step(Mode::FORWARD, None), PipeAction::Shutdown));
    assert!(matches!(t.pipe_step(Mode::ENCRYPT, Some(&[])), PipeAction::Shutdown));
    match t.pipe_step(Mode::DECRYPT, Some(b"ab")) {
        PipeAction::Send(out) => assert_eq!(out, b"ab".to_vec()),
        PipeAction::Shutdown => panic!("expected a send"),
    }
    match t.pipe_step(Mode::ENCRYPT, Some(b"abc")) {
        PipeAction::Send(out) => {
            let (header, payload) = split_frame(&out);
            assert_eq!(out.len(), 16 + header.noise_len as usize + 16);
            let mut buf = [0u8; 8];
            assert_eq!(t.read(&header, payload, &mut buf), Ok(3));
            assert_eq!(&buf[..3], b"abc");
        }
        PipeAction::Shutdown => panic!("expected a send"),
    }
}

#[test]
fn pack_length_is_header_noise_and_padded_body() {
    for n in [0usize, 1, 15, 16, 100] {
        let mut msg = Message::new(&KEY, &IV);
        msg.write_bytes(&vec![1u8; n]);
        let frame = msg.pack();
        let header = FrameHeader::parse(&frame[..16]);
        assert_eq!(frame.len(), 16 + header.noise_len as usize + (n / 16 + 1) * 16);
    }
}
