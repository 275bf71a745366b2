//! Encrypted, noise-padded message framing for TCP tunnels, and the decision
//! logic of a small SOCKS5 proxy.
//!
//! `msg` frames a byte payload: the payload is encrypted with AES-128-CBC,
//! prefixed by a random amount of noise, and given a header whose two length
//! fields are masked with a magic constant. `tunnel` and `tunel` decide what a
//! tunnel forwards in each mode, and `v5` drives the SOCKS5 handshake as a
//! state machine whose I/O is performed by the caller.

pub mod buffer;
pub mod crypto;
pub mod msg;
pub mod tunel;
pub mod tunnel;
pub mod v5;
