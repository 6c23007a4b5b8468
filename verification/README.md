# tokencrypt

A verified implementation of the [3ncr.org](https://3ncr.org/) v1 string
encryption envelope, `3ncr.org/1#<base64(iv[12] || ciphertext || tag[16])>`,
with AES-256-GCM and base64 without padding.

Layout:

- `src/envelope.rs` — the envelope as spec functions (what a value decrypts
  to, what encryption produces), the header and padding helpers, and the
  laws proved about them.
- `src/token.rs` — `TokenCrypt`: key derivation, encryption and decryption,
  each with a contract over the spec functions.
- `src/error.rs` — `TokenCryptError` and the text of each error.
- `src/primitives.rs` — the calls into `aes-gcm`, `argon2`, `base64`,
  `getrandom`, `hmac`/`pbkdf2`, `sha3` and `String::from_utf8`, each behind a
  trusted contract.
- `app/lib.rs` — `Display`/`std::error::Error` for the error type and
  constructors taking `impl AsRef<[u8]>`.
