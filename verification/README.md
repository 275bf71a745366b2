# msg800

Encrypted, noise-padded framing for TCP tunnels, and a SOCKS5 proxy, written
in Verus.

- `src/` is the verified library:
  - `buffer` — the growable byte buffer of the `bytebuffer` crate, seen through
    its contents, and big-endian encodings;
  - `crypto::aes` — AES-128-CBC with PKCS#7 padding (the `aes` and `cbc` crates);
  - `msg` — packing a payload into a frame (masked lengths, random noise,
    encrypted body) and unpacking it; the contracts state that every packed
    frame unpacks to the payload;
  - `tunnel`, `tunel` — what a tunnel forwards in each mode;
  - `v5` — the SOCKS5 handshake as a state machine.
- `app/` holds the programs: command-line parsing, sockets and the async loops
  that perform the I/O the library asks for.
- `tests/` runs the library on concrete inputs.
