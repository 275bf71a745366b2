//! The SOCKS5 handshake of a proxy, as a state machine: the caller performs the
//! reads and writes that each step asks for and hands back what it read.
//!
//! The proxy reads the client's greeting (version, number of methods, the
//! methods), answers "version 5, no authentication", reads a CONNECT request
//! for a domain name, answers with the request itself, status 0 in place of
//! the command, and then connects to the target and pipes data both ways.

use crate::buffer::{lemma_u16_be_from_bytes, read_u16_be, u16_be_bytes, u16_from_be};
use crate::msg::Message;
use std::string::FromUtf8Error;
use vstd::prelude::*;
use vstd::utf8::{decode_utf8, encode_utf8, valid_utf8};

verus! {

/// The role of a proxy: a wolf forwards to the tiger at the given address, a
/// tiger connects to targets itself.
#[derive(Clone, Debug)]
pub enum Mode {
    WOLF(String),
    TIGER,
}

/// The address of a target.
#[derive(Debug)]
pub enum Addr {
    DOMAIN(String),
}

/// A CONNECT request: the bytes around the command, the target and its port.
#[derive(Debug)]
pub struct TargetAddress {
    pub unused_0: u8,
    pub unused_1: u8,
    pub addr_type: u8,
    pub addr: Addr,
    pub port: u16,
}

#[verifier::external_type_specification]
#[verifier::external_body]
pub struct ExFromUtf8Error(FromUtf8Error);

/// Why a handshake was given up.
#[derive(Debug)]
pub enum Socks5Error {
    /// The request's command is not CONNECT.
    UnsupportedCommand,
    /// The request's address is not a domain name.
    UnsupportedAddrType,
    /// The domain name is not UTF-8; the error of `String::from_utf8`.
    InvalidDomain(FromUtf8Error),
}

impl Socks5Error {
    /// The text of an error that the proxy gives in words of its own; an
    /// invalid domain is reported by its `FromUtf8Error`, which has none here.
    pub fn message(&self) -> (r: Option<&'static str>)
        ensures
            *self is UnsupportedCommand ==> (r matches Some(t) && t@ == "unsupport command"@),
            *self is UnsupportedAddrType ==> (r matches Some(t) && t@ == "unsupport addr_type"@),
            *self is InvalidDomain ==> r is None,
    {
        match self {
            Socks5Error::UnsupportedCommand => Some("unsupport command"),
            Socks5Error::UnsupportedAddrType => Some("unsupport addr_type"),
            Socks5Error::InvalidDomain(_) => None,
        }
    }
}

/// The command of a CONNECT request.
pub const CMD_CONNECT: u8 = 1;

/// The address type of a domain name.
pub const ADDR_DOMAIN: u8 = 3;

/// The answer to a greeting: version 5, no authentication.
pub open spec fn auth_reply() -> Seq<u8> {
    seq![5u8, 0u8]
}

/// The domain of a target, as characters.
pub open spec fn domain_of(t: TargetAddress) -> Seq<char> {
    match t.addr {
        Addr::DOMAIN(d) => d@,
    }
}

/// The reply to a CONNECT request: its first, third and fourth bytes, status 0,
/// the length and UTF-8 bytes of the domain, and the port, big-endian.
pub open spec fn reply_bytes(unused_0: u8, unused_1: u8, addr_type: u8, domain: Seq<char>, port: u16) -> Seq<
    u8,
> {
    seq![unused_0, 0u8, unused_1, addr_type, encode_utf8(domain).len() as u8] + encode_utf8(domain)
        + u16_be_bytes(port)
}

/// The reply to the request for target `t`.
pub open spec fn reply_for(t: TargetAddress) -> Seq<u8> {
    reply_bytes(t.unused_0, t.unused_1, t.addr_type, domain_of(t), t.port)
}

/// The bytes of a CONNECT request for a domain: its four-byte head, the length
/// of the domain, the domain's bytes and the two bytes of the port.
pub open spec fn request_bytes(head: Seq<u8>, domain: Seq<u8>, port: Seq<u8>) -> Seq<u8> {
    head + seq![domain.len() as u8] + domain + port
}

/// The reply to a CONNECT request for a domain is the request itself, with
/// status 0 in place of the command.
pub proof fn lemma_reply_echoes_request(head: Seq<u8>, domain: Seq<u8>, port: Seq<u8>)
    requires
        head.len() == 4,
        domain.len() <= 255,
        valid_utf8(domain),
        port.len() == 2,
    ensures
        reply_bytes(head[0], head[2], head[3], decode_utf8(domain), u16_from_be(port)) == request_bytes(
            head,
            domain,
            port,
        ).update(1, 0u8),
{
    vstd::utf8::decode_utf8_encode_utf8(domain);
    lemma_u16_be_from_bytes(port);
    assert(reply_bytes(head[0], head[2], head[3], decode_utf8(domain), u16_from_be(port)) =~= request_bytes(
        head,
        domain,
        port,
    ).update(1, 0u8));
}

/// `String::from_utf8`: the string that the bytes encode where they are valid
/// UTF-8, and otherwise its error.
#[verifier::external_body]
fn string_from_utf8(bytes: Vec<u8>) -> (r: Result<String, FromUtf8Error>)
    ensures
        r is Ok <==> valid_utf8(bytes@),
        r matches Ok(s) ==> s@ == decode_utf8(bytes@),
{
    String::from_utf8(bytes)
}

/// The reply to the request for `target`.
fn resp_client_cmd(target: &TargetAddress) -> (r: Vec<u8>)
    requires
        encode_utf8(domain_of(*target)).len() <= 255,
    ensures
        r@ == reply_for(*target),
        r@ == seq![
            target.unused_0,
            0u8,
            target.unused_1,
            target.addr_type,
            encode_utf8(domain_of(*target)).len() as u8,
        ] + encode_utf8(domain_of(*target)) + seq![(target.port >> 8u16) as u8, target.port as u8],
{
    let buf = [target.unused_0, 0u8, target.unused_1, target.addr_type];
    let mut msg = Message::new(&[0u8; 16], &[0u8; 16]);
    msg.write_bytes(&buf);
    let Addr::DOMAIN(domain) = &target.addr;
    let bytes = domain.as_str().as_bytes();
    msg.write_u8(bytes.len() as u8);
    msg.write_bytes(bytes);
    msg.write_u16(target.port);
    let r = vstd::slice::slice_to_vec(msg.as_bytes());
    assert(r@ =~= reply_for(*target));
    r
}

/// What the caller is to do next.
pub enum Step {
    /// Read exactly this many bytes from the client and hand them to `advance`.
    Read(usize),
    /// Send these bytes to the client, then read exactly this many bytes and
    /// hand them to `advance`.
    Send(Vec<u8>, usize),
    /// Send this reply to the client, then connect to the target and pipe data
    /// between the two; the handshake is over.
    Connect(Vec<u8>, TargetAddress),
    /// Give the connection up; the handshake is over.
    Fail(Socks5Error),
}

/// Where a handshake stands: which bytes it waits for, and what it has kept of
/// the request so far.
pub enum Handshake {
    /// Waiting for the version and the number of methods.
    Greeting,
    /// Waiting for the list of `count` methods.
    Methods { count: u8 },
    /// Waiting for the four-byte head of the request.
    Request,
    /// Waiting for the length of the domain.
    DomainLen { head: [u8; 4] },
    /// Waiting for the `len` bytes of the domain.
    Domain { head: [u8; 4], len: u8 },
    /// Waiting for the two bytes of the port.
    Port { head: [u8; 4], domain: String },
    /// Over.
    Finished,
}

/// The number of bytes that a handshake in state `h` waits for.
pub open spec fn awaited(h: Handshake) -> nat {
    match h {
        Handshake::Greeting => 2,
        Handshake::Methods { count } => count as nat,
        Handshake::Request => 4,
        Handshake::DomainLen { .. } => 1,
        Handshake::Domain { len, .. } => len as nat,
        Handshake::Port { .. } => 2,
        Handshake::Finished => 0,
    }
}

/// How many bytes each state waits for: the two of a greeting, one per
/// offered method, the four of a request head, the one length byte, one per
/// domain byte, and the two of a port.
pub proof fn lemma_awaited_counts(head: [u8; 4], count: u8, len: u8, domain: String)
    ensures
        awaited(Handshake::Greeting) == 2,
        awaited(Handshake::Methods { count }) == count,
        awaited(Handshake::Request) == 4,
        awaited(Handshake::DomainLen { head }) == 1,
        awaited(Handshake::Domain { head, len }) == len,
        awaited(Handshake::Port { head, domain }) == 2,
        awaited(Handshake::Finished) == 0,
{
}

impl Handshake {
    /// Whether what this handshake has kept of the request fits in a reply: a
    /// domain that it waits to finish has at most 255 bytes.
    pub open spec fn wf(&self) -> bool {
        match *self {
            Handshake::Port { domain, .. } => encode_utf8(domain@).len() <= 255,
            _ => true,
        }
    }

    /// A handshake that waits for the client's greeting; the first step is to
    /// read it.
    pub fn new() -> (r: (Handshake, Step))
        ensures
            r.0.wf(),
            r.0 is Greeting,
            r.1 matches Step::Read(n) && n == 2,
    {
        (Handshake::Greeting, Step::Read(2))
    }

    /// The number of bytes that this handshake waits for.
    pub fn awaited_len(&self) -> (n: usize)
        ensures
            n == awaited(*self),
    {
        match self {
            Handshake::Greeting => 2,
            Handshake::Methods { count } => *count as usize,
            Handshake::Request => 4,
            Handshake::DomainLen { .. } => 1,
            Handshake::Domain { len, .. } => *len as usize,
            Handshake::Port { .. } => 2,
            Handshake::Finished => 0,
        }
    }

    /// Takes the bytes that the last step asked for, and gives the next state
    /// and step.
    pub fn advance(self, input: &[u8]) -> (r: (Handshake, Step))
        requires
            self.wf(),
            !(self is Finished),
            input@.len() == awaited(self),
        ensures
            r.0.wf(),
            r.1 matches Step::Read(n) ==> n == awaited(r.0),
            r.1 matches Step::Send(_, n) ==> n == awaited(r.0),
            (r.1 is Connect || r.1 is Fail) <==> r.0 is Finished,
            match self {
                Handshake::Greeting => if input@[1] > 0 {
                    &&& r.0 == Handshake::Methods { count: input@[1] }
                    &&& r.1 matches Step::Read(n) && n == input@[1]
                } else {
                    &&& r.0 is Request
                    &&& r.1 matches Step::Send(b, n) && b@ == auth_reply() && n == 4
                },
                Handshake::Methods { .. } => {
                    &&& r.0 is Request
                    &&& r.1 matches Step::Send(b, n) && b@ == auth_reply() && n == 4
                },
                Handshake::Request => if input@[1] != CMD_CONNECT {
                    &&& r.0 is Finished
                    &&& r.1 matches Step::Fail(Socks5Error::UnsupportedCommand)
                } else if input@[3] != ADDR_DOMAIN {
                    &&& r.0 is Finished
                    &&& r.1 matches Step::Fail(Socks5Error::UnsupportedAddrType)
                } else {
                    &&& r.0 matches Handshake::DomainLen { head } && head@ == input@
                    &&& r.1 matches Step::Read(n) && n == 1
                },
                Handshake::DomainLen { head } => {
                    &&& r.0 == Handshake::Domain { head, len: input@[0] }
                    &&& r.1 matches Step::Read(n) && n == input@[0]
                },
                Handshake::Domain { head, .. } => if valid_utf8(input@) {
                    &&& r.0 matches Handshake::Port { head: h, domain } && h == head && domain@
                        == decode_utf8(input@) && encode_utf8(domain@) == input@
                    &&& r.1 matches Step::Read(n) && n == 2
                } else {
                    &&& r.0 is Finished
                    &&& r.1 matches Step::Fail(Socks5Error::InvalidDomain(_))
                },
                Handshake::Port { head, domain } => {
                    &&& r.0 is Finished
                    &&& r.1 matches Step::Connect(reply, t) && t.unused_0 == head[0] && t.unused_1
                        == head[2] && t.addr_type == head[3] && domain_of(t) == domain@ && t.port
                        == u16_from_be(input@) && reply@ == reply_for(t) && reply@ == (head@ + seq![
                        encode_utf8(domain@).len() as u8,
                    ] + encode_utf8(domain@) + input@).update(1, 0u8)
                },
                Handshake::Finished => false,
            },
    {
        match self {
            Handshake::Greeting => {
                let method_num = input[1];
                if method_num > 0 {
                    (Handshake::Methods { count: method_num }, Step::Read(method_num as usize))
                } else {
                    (Handshake::Request, Step::Send(vec![5u8, 0u8], 4))
                }
            },
            Handshake::Methods { .. } => (Handshake::Request, Step::Send(vec![5u8, 0u8], 4)),
            Handshake::Request => {
                let command = input[1];
                let addr_type = input[3];
                if command != CMD_CONNECT {
                    (Handshake::Finished, Step::Fail(Socks5Error::UnsupportedCommand))
                } else if addr_type != ADDR_DOMAIN {
                    (Handshake::Finished, Step::Fail(Socks5Error::UnsupportedAddrType))
                } else {
                    let head = [input[0], input[1], input[2], input[3]];
                    assert(head@ =~= input@);
                    (Handshake::DomainLen { head }, Step::Read(1))
                }
            },
            Handshake::DomainLen { head } => {
                let len = input[0];
                (Handshake::Domain { head, len }, Step::Read(len as usize))
            },
            Handshake::Domain { head, .. } => {
                match string_from_utf8(vstd::slice::slice_to_vec(input)) {
                    Ok(domain) => {
                        proof {
                            vstd::utf8::decode_utf8_encode_utf8(input@);
                        }
                        (Handshake::Port { head, domain }, Step::Read(2))
                    },
                    Err(e) => (Handshake::Finished, Step::Fail(Socks5Error::InvalidDomain(e))),
                }
            },
            Handshake::Port { head, domain } => {
                let port = read_u16_be(input, 0);
                assert(input@.subrange(0, 2) =~= input@);
                let target = TargetAddress {
                    unused_0: head[0],
                    unused_1: head[2],
                    addr_type: head[3],
                    addr: Addr::DOMAIN(domain),
                    port,
                };
                let reply = resp_client_cmd(&target);
                proof {
                    lemma_u16_be_from_bytes(input@);
                    assert(reply@ =~= (head@ + seq![encode_utf8(domain_of(target)).len() as u8]
                        + encode_utf8(domain_of(target)) + input@).update(1, 0u8));
                }
                (Handshake::Finished, Step::Connect(reply, target))
            },
            Handshake::Finished => (Handshake::Finished, Step::Fail(Socks5Error::UnsupportedCommand)),
        }
    }
}

} // verus!
