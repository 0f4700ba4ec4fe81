# drift

Encrypted file transfer over WebSocket, with its protocol logic verified by Verus.

- `src/` — the verified library:
  - `protocol/` — control messages and their correlation ids; the binary frame codec.
  - `crypto/` — the per-direction ChaCha20-Poly1305 stream (keys from HKDF-SHA256), with the
    calls into `chacha20poly1305` and `hkdf` behind specified wrappers.
  - `client/` — target URLs, the client handshake state machine, pull/browse decisions,
    directory listings (sizes, permissions, dates).
  - `server/` — the table of callers waiting for replies, path containment checks, transfer
    planning and outcomes, remote connection bookkeeping.
  - `fileops/` — compression decisions and archive naming, staging paths.
  - `text.rs` — string building blocks shared by the above.
- `tests/` — tests run against the compiled library.
- `app/` — the command-line program: sockets, TLS, files and archives, JSON.
