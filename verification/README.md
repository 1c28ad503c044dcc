# fakevpn

A peer-to-peer Layer-2 VPN: Ethernet frames read from a Windows TAP adapter
travel, length-prefixed, over one encrypted iroh QUIC stream to the peer's
TAP adapter.

- `src/` is the verified library.
  - `framing`: the wire format (4-byte big-endian length, then the frame),
    the sender's decision per TAP read, and the receiver's reassembler, with
    proofs that frames come out exactly as sent however the stream is cut.
  - `cli`: the command-line options, the adapter address of each role, and
    reading the peer's node ID (through iroh).
  - `keys`: reusing the 32-byte secret key file, or making a new key.
  - `server`: what the host needs to bring up its end of a session.
  - `tap_control`: the decisions that drive the TAP adapter on Windows
    (overlapped I/O, media status, registry lookup, netsh commands).
  - `text`: decimal text of numbers.
- `app/` is the program: argument parsing, iroh endpoints, the async bridge,
  file access and the Windows calls, each step decided by the library.
- `tests/` exercises the library on concrete values.
