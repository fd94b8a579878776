# rustao

A Rust SDK for the AO protocol on Arweave, written in Verus.

- `src/` is the verified library: LEB128 varints, the ANS-104 style data
  item (signed bytes, wire form, id, reading it back), JWK wallets and their
  addresses, RSA keys held as their big-endian components (signing,
  verifying, OAEP), hybrid AES-GCM + RSA-OAEP encryption, and the pure parts
  of the client (the payload and signed items it submits, dry-run requests,
  URLs, polling decisions). Calls into `rsa`, `aes-gcm`, `sha2`, `base64`,
  `base58`, `serde_json` and `rand` stand behind small trusted functions
  whose contracts are written next to them.
- `app/` is the HTTP client (`reqwest`, `tokio`), wallet files, and the
  serde forms of the library's records.
- `tests/` exercises both.
