use msg800::v5::{Addr, Handshake, Socks5Error, Step};

fn expect_read(step: &Step) -> usize {
    match step {
        Step::Read(n) => *n,
        _ => panic!("expected a read"),
    }
}

#[test]
fn handshake_accepts_domain_connect() {
    let (hs, step) = Handshake::new();
    assert_eq!(expect_read(&step), 2);
    assert_eq!(hs.awaited_len(), 2);
    let (hs, step) = hs.advance(&[5, 2]);
    assert_eq!(expect_read(&step), 2);
    let (hs, step) = hs.advance(&[0, 1]);
    match step {
        Step::Send(bytes, n) => {
            assert_eq!(bytes, vec![5, 0]);
            assert_eq!(n, 4);
        }
        _ => panic!("expected the auth reply"),
    }
    let (hs, step) = hs.advance(&[5, 1, 0, 3]);
    assert_eq!(expect_read(&step), 1);
    let (hs, step) = hs.advance(&[11]);
    assert_eq!(expect_read(&step), 11);
    let (hs, step) = hs.advance(b"example.com");
    assert_eq!(expect_read(&step), 2);
    let (hs, step) = hs.advance(&[0x01, 0xbb]);
    assert_eq!(hs.awaited_len(), 0);
    match step {
        Step::Connect(reply, target) => {
            let mut expected = vec![5, 0, 0, 3, 11];
            expected.extend_from_slice(b"example.com");
            expected.extend_from_slice(&[0x01, 0xbb]);
            assert_eq!(reply, expected);
            assert_eq!(target.port, 443);
            assert_eq!(target.unused_0, 5);
            assert_eq!(target.unused_1, 0);
            assert_eq!(target.addr_type, 3);
            let Addr::DOMAIN(d) = &target.addr;
            assert_eq!(d, "example.com");
        }
        _ => panic!("expected a connect"),
    }
}

#[test]
fn handshake_without_methods_answers_at_once() {
    let (hs, _) = Handshake::new();
    let (hs, step) = hs.advance(&[5, 0]);
    assert!(matches!(step, Step::Send(ref b, 4) if b == &vec![5u8, 0]));
    assert_eq!(hs.awaited_len(), 4);
}

#[test]
fn handshake_rejects_other_commands() {
    let (hs, _) = Handshake::new();
    let (hs, _) = hs.advance(&[5, 0]);
    let (hs, step) = hs.advance(&[5, 2, 0, 3]);
    assert!(matches!(step, Step::Fail(Socks5Error::UnsupportedCommand)));
    assert_eq!(hs.awaited_len(), 0);
    assert_eq!(Socks5Error::UnsupportedCommand.message(), Some("unsupport command"));
}

#[test]
fn handshake_rejects_other_address_types() {
    let (hs, _) = Handshake::new();
    let (hs, _) = hs.advance(&[5, 0]);
    let (_, step) = hs.advance(&[5, 1, 0, 1]);
    assert!(matches!(step, Step::Fail(Socks5Error::UnsupportedAddrType)));
    assert_eq!(Socks5Error::UnsupportedAddrType.message(), Some("unsupport addr_type"));
}

#[test]
fn handshake_rejects_invalid_utf8_domain() {
    let (hs, _) = Handshake::new();
    let (hs, _) = hs.advance(&[5, 0]);
    let (hs, _) = hs.advance(&[5, 1, 0, 3]);
    let (hs, _) = hs.advance(&[2]);
    let (_, step) = hs.advance(&[0xff, 0xfe]);
    match step {
        Step::Fail(Socks5Error::InvalidDomain(e)) => {
            let expected = String::from_utf8(vec![0xff, 0xfe]).unwrap_err();
            assert_eq!(e.to_string(), expected.to_string());
            assert_eq!(e.as_bytes(), &[0xff, 0xfe]);
            assert_eq!(Socks5Error::InvalidDomain(e).message(), None);
        }
        _ => panic!("expected an invalid domain"),
    }
}

#[test]
fn reply_echoes_utf8_domain_request() {
    let domain = "bücher.de".as_bytes();
    let (hs, _) = Handshake::new();
    let (hs, _) = hs.advance(&[5, 0]);
    let (hs, _) = hs.advance(&[7, 1, 9, 3]);
    let (hs, _) = hs.advance(&[domain.len() as u8]);
    let (hs, _) = hs.advance(domain);
    let (_, step) = hs.advance(&[0, 80]);
    let mut request = vec![7, 1, 9, 3, domain.len() as u8];
    request.extend_from_slice(domain);
    request.extend_from_slice(&[0, 80]);
    request[1] = 0;
    match step {
        Step::Connect(reply, _) => assert_eq!(reply, request),
        _ => panic!("expected a connect"),
    }
}
