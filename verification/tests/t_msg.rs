use msg800::crypto::aes::Aes;
use msg800::msg::{FrameError, FrameHeader, Message, HEADER_LEN, MAGIC, NOISE_MAX, NOISE_MIN};

const KEY: [u8; 16] = [0x42; 16];
const IV: [u8; 16] = [0x24; 16];

fn hex(s: &str) -> Vec<u8> {
    (0..s.len())
        .step_by(2)
        .map(|i| u8::from_str_radix(&s[i..i + 2], 16).unwrap())
        .collect()
}

fn known_ciphertext() -> Vec<u8> {
    hex("c7fe247ef97b21f07cbdd26cb5d346bfd27867cb00d9486723e159978fb9a5f914cfb228a710de4171e396e7b6cf859e")
}

fn split_frame(frame: &[u8]) -> (FrameHeader, &[u8]) {
    (FrameHeader::parse(&frame[..16]), &frame[16..])
}

#[test]
fn pack() {
    let mut msg = Message::new(&[0; 16], &[0; 16]);
    msg.write_bytes(b"hello world");
    let block = msg.pack();
    println!("D {block:?}");
}

#[test]
fn aes_encrypt_known_vector() {
    let aes = Aes::new(KEY, IV);
    let ct = aes.encrypt(b"hello world! this is my plaintext.");
    assert_eq!(ct, known_ciphertext());
}

#[test]
fn aes_decrypt_known_vector() {
    let aes = Aes::new(KEY, IV);
    let pt = aes.decrypt(&known_ciphertext());
    assert_eq!(pt, b"hello world! this is my plaintext.".to_vec());
    assert_eq!(
        aes.try_decrypt(&known_ciphertext()),
        Some(b"hello world! this is my plaintext.".to_vec())
    );
}

#[test]
fn aes_decrypt_strips_one_to_sixteen_bytes() {
    let aes = Aes::new(KEY, IV);
    for n in [0usize, 1, 15, 16, 17, 31, 32] {
        let data = vec![0x5au8; n];
        let ct = aes.encrypt(&data);
        let pt = aes.decrypt(&ct);
        assert_eq!(pt, data);
        assert!(pt.len() < ct.len() && ct.len() <= pt.len() + 16);
    }
    assert_eq!(aes.try_decrypt(&[]), None);
}

#[test]
fn aes_padding_lengths() {
    let aes = Aes::new(KEY, IV);
    assert_eq!(aes.encrypt(b"").len(), 16);
    assert_eq!(aes.encrypt(&[7u8; 15]).len(), 16);
    assert_eq!(aes.encrypt(&[7u8; 16]).len(), 32);
    assert_eq!(aes.encrypt(&[7u8; 17]).len(), 32);
}

#[test]
fn aes_try_decrypt_rejects_partial_block() {
    let aes = Aes::new(KEY, IV);
    assert_eq!(aes.try_decrypt(&[1u8; 15]), None);
    assert_eq!(aes.try_decrypt(&known_ciphertext()[..40]), None);
}

#[test]
fn aes_try_decrypt_rejects_bad_padding() {
    let aes = Aes::new(KEY, IV);
    // The plaintext ends in fourteen padding bytes 0x0e; flipping the last byte
    // of the previous ciphertext block turns the last one into 0x20, which is
    // larger than a block.
    let mut ct = known_ciphertext();
    ct[31] ^= 0x0e ^ 0x20;
    assert_eq!(aes.try_decrypt(&ct), None);
}

#[test]
fn message_writes_append() {
    let mut msg = Message::new(&KEY, &IV);
    assert_eq!(msg.as_bytes(), &[] as &[u8]);
    msg.write_u8(0x05);
    msg.write_u16(0x1f90);
    msg.write_bytes(b"ab");
    assert_eq!(msg.as_bytes(), &[0x05, 0x1f, 0x90, b'a', b'b']);
}

#[test]
fn pack_with_noise_layout() {
    let mut msg = Message::new(&KEY, &IV);
    msg.write_bytes(b"hello world! this is my plaintext.");
    let noise = [9u8; 5];
    let frame = msg.pack_with_noise(&noise);
    let total = (16 + 5 + 48) as u64;
    let mut expected = Vec::new();
    expected.extend_from_slice(&(total ^ MAGIC).to_be_bytes());
    expected.extend_from_slice(&(5u64 ^ MAGIC).to_be_bytes());
    expected.extend_from_slice(&noise);
    expected.extend_from_slice(&known_ciphertext());
    assert_eq!(frame, expected);
}

#[test]
fn pack_then_unpack_roundtrip() {
    let mut msg = Message::new(&KEY, &IV);
    msg.write_bytes(b"some payload bytes");
    let frame = msg.pack();
    assert_eq!(msg.as_bytes(), b"some payload bytes");
    let noise_plus_body = frame.len() - HEADER_LEN;
    let (header, payload) = split_frame(&frame);
    assert_eq!(header.total_len as usize, frame.len());
    assert!(header.noise_len as usize >= NOISE_MIN && (header.noise_len as usize) < NOISE_MAX);
    assert_eq!(noise_plus_body, header.noise_len as usize + 32);
    assert_eq!(header.payload_len(), Some(payload.len()));
    let mut out = Message::new(&KEY, &IV);
    out.unpack(&header, payload);
    assert_eq!(out.as_bytes(), b"some payload bytes");
}

#[test]
fn unpack_appends_to_existing_bytes() {
    let mut msg = Message::new(&KEY, &IV);
    msg.write_bytes(b"xyz");
    let frame = msg.pack();
    let (header, payload) = split_frame(&frame);
    let mut out = Message::new(&KEY, &IV);
    out.write_bytes(b"abc");
    assert_eq!(out.try_unpack(&header, payload), Ok(()));
    assert_eq!(out.as_bytes(), b"abcxyz");
}

#[test]
fn frame_header_parse_and_payload_len() {
    let mut bytes = Vec::new();
    bytes.extend_from_slice(&(100u64 ^ MAGIC).to_be_bytes());
    bytes.extend_from_slice(&(7u64 ^ MAGIC).to_be_bytes());
    let h = FrameHeader::parse(&bytes);
    assert_eq!(h, FrameHeader { total_len: 100, noise_len: 7 });
    assert_eq!(h.payload_len(), Some(84));
    assert_eq!(FrameHeader { total_len: 16, noise_len: 0 }.payload_len(), Some(0));
    assert_eq!(FrameHeader { total_len: 15, noise_len: 0 }.payload_len(), None);
}

#[test]
fn try_unpack_errors() {
    let mut msg = Message::new(&KEY, &IV);
    msg.write_bytes(b"data");
    let frame = msg.pack_with_noise(&[1, 2, 3]);
    let (header, payload) = split_frame(&frame);

    let mut out = Message::new(&KEY, &IV);
    let short = FrameHeader { total_len: 10, noise_len: 0 };
    assert_eq!(out.try_unpack(&short, payload), Err(FrameError::TooShort));
    assert_eq!(out.try_unpack(&header, &payload[1..]), Err(FrameError::PayloadLength));
    let long_noise = FrameHeader { total_len: header.total_len, noise_len: 1000 };
    assert_eq!(out.try_unpack(&long_noise, payload), Err(FrameError::NoiseTooLong));
    let shifted = FrameHeader { total_len: header.total_len, noise_len: 4 };
    assert_eq!(out.try_unpack(&shifted, payload), Err(FrameError::Undecryptable));
    assert_eq!(out.as_bytes(), &[] as &[u8]);
    assert_eq!(out.try_unpack(&header, payload), Ok(()));
    assert_eq!(out.as_bytes(), b"data");
}

#[test]
fn unpack_with_other_key_does_not_give_contents() {
    let mut msg = Message::new(&KEY, &IV);
    msg.write_bytes(b"secret");
    let frame = msg.pack();
    let (header, payload) = split_frame(&frame);
    let mut out = Message::new(&[7; 16], &IV);
    match out.try_unpack(&header, payload) {
        Ok(()) => assert_ne!(out.as_bytes(), b"secret"),
        Err(e) => assert_eq!(e, FrameError::Undecryptable),
    }
}
