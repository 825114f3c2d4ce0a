# flowy_encryption

Verified (Verus) core of the encryption secret handling of a note-taking app:

- `secret`: versioned secrets `<passphrase>$<salt_b64>` (legacy) and `v2$<passphrase>$<salt_b64>`,
  their parsing, composition and key derivation (PBKDF2-HMAC-SHA256 / Argon2id).
- `encryption`: authenticated encryption of bytes and base64 text under a secret
  (AES-256-GCM / XChaCha20-Poly1305, random nonce prefixed), and secret generation.
- `secure_storage`: the secret in the OS credential store (`keyring`).
- `cloud_config`: which copy of the user's cloud configuration goes to the key-value store and
  what is filled back in after a read.
- `aead`, `kdf`, `base64_codec`, `random`, `text`: the calls into the outside crates and std,
  each behind a small trusted item whose contract is stated in its doc comment.

`app/` holds the key-value store reads and writes around `cloud_config`.
