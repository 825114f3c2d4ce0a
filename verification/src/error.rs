//! The errors of the encryption functions.

use vstd::prelude::*;

verus! {

/// Why an encryption, a decryption or the reading of a secret failed.
#[derive(Debug, Clone, Copy, PartialEq, Eq, Structural)]
pub enum EncryptionError {
    /// The secret is neither `<passphrase>$<salt>` nor `v2$<passphrase>$<salt>`.
    InvalidSecretFormat,
    /// The salt part of the secret is not valid base64.
    InvalidSaltEncoding,
    /// The salt part of the secret does not decode to the salt length.
    IncorrectSaltLength,
    /// The key derivation function refused its inputs.
    KeyDerivation,
    /// The cipher refused to encrypt the data.
    Encryption,
    /// The data is too short to hold a nonce and a ciphertext.
    CiphertextTooShort,
    /// The ciphertext did not authenticate under the derived key.
    Decryption,
    /// Encrypted text is not valid base64.
    InvalidBase64,
    /// Decrypted text is not valid UTF-8.
    InvalidUtf8,
}

} // verus!
