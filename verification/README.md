# synchalo

SyncHalo synchronizes clipboard text and files between devices on the same
local network that the user has paired. This crate is its verified core,
written in Verus: the rules of pairing, the wire protocol, the trusted
handshake, clipboard ordering, the encrypted store's records and key ring,
the key file, file-transfer state and naming, history paging and search, and
the device list, each with a contract that Verus proves.

Layout:

- `src/` — the library. One module per concern: `hlc` (hybrid logical
  clock), `pairing` (codes and attempt limits), `pake` (the SPAKE2 key
  exchange of pairing), `transport` and `frames`
  (credentials, wire frames, proofs and checks), `keyring`, `records`, `aad`
  and `key_file` (the encrypted store's keys and rows), `transfer` and
  `transfer_state` (incoming files, per-chunk digests and verified-prefix
  resume, and the state of transfers), `sync`
  (clipboard and device decisions), `history` (paging, search and
  retention), `net` (addresses and discovery records), `i18n`, `platform`,
  `model`, `error`, `ids`, `text` and `primitives` (the calls into the
  cryptography and encoding crates, with their contracts).
- `tests/` — tests of the library, run against the real outside crates.
- `app/` — a terminal program around the library: SQLite, the key file and
  keychain, QUIC, mDNS, the clipboard and the file system.
