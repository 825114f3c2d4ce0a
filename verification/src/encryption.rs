//! Encryption and decryption of data and text under a versioned secret, and the
//! generation of new secrets.

use vstd::prelude::*;
use vstd::slice::slice_to_vec;
use vstd::utf8::{decode_utf8, encode_utf8, is_ascii_chars, is_ascii_chars_encode_utf8, valid_utf8};

use crate::aead::{
    aes256gcm_ciphertext, aes256gcm_decrypt, aes256gcm_encrypt, aes256gcm_plaintext,
    xchacha20poly1305_ciphertext, xchacha20poly1305_decrypt, xchacha20poly1305_encrypt,
    xchacha20poly1305_plaintext, xchacha_keystream_fits, xchacha_refuses, TAG_LENGTH,
};
use crate::base64_codec::{
    base64_decode, base64_encode, base64_encoded_len, base64_standard_decoding,
    base64_standard_encoding, is_base64_char, lemma_base64_encoding_shape, lemma_base64_text_bytes,
};
use crate::error::EncryptionError;
use crate::kdf::{argon2id_v13_output, pbkdf2_hmac_sha256_output};
use crate::random::{random_alphanumeric, random_bytes};
use crate::secret::{
    bytes_result, derive_key, derived_key, has_no_delimiter, lemma_version_2_layout,
    parse_secret, parsed_secret, secret_fields, salted_secret, version_tag, SecretModel,
    SecretVersion, CONCATENATED_DELIMITER, KEY_LENGTH, SALT_LENGTH,
};
use crate::text::{lemma_encode_utf8_concat, lemma_encode_utf8_no_dollar, string_from_utf8, string_push};

verus! {

/// The length of the nonce for legacy AES-GCM encryption.
pub const LEGACY_NONCE_LENGTH: usize = 12;

/// The length of the nonce for XChaCha20-Poly1305 encryption.
pub const XNONCE_LENGTH: usize = 24;

/// The length of the random passphrase in characters.
pub const PASSPHRASE_LENGTH: usize = 30;

/// The nonce length of a scheme.
pub open spec fn nonce_length(version: SecretVersion) -> nat {
    match version {
        SecretVersion::V2 => XNONCE_LENGTH as nat,
        SecretVersion::Legacy => LEGACY_NONCE_LENGTH as nat,
    }
}

/// The nonce length of the scheme that the bytes of a secret select (0 for no secret).
pub open spec fn secret_nonce_length(secret: Seq<u8>) -> nat {
    match secret_fields(secret) {
        Some((version, _, _)) => nonce_length(version),
        None => 0,
    }
}

/// The message lengths that a scheme's cipher encrypts.
pub open spec fn cipher_accepts(version: SecretVersion, len: nat) -> bool {
    match version {
        SecretVersion::V2 => xchacha_keystream_fits(len),
        SecretVersion::Legacy => len <= 0x10_0000_0000,
    }
}

/// The message lengths on which a scheme's cipher returns rather than panics: XChaCha20
/// panics on a message longer than its keystream that it does not refuse outright.
pub open spec fn cipher_defined(version: SecretVersion, len: nat) -> bool {
    match version {
        SecretVersion::V2 => xchacha_keystream_fits(len) || xchacha_refuses(len),
        SecretVersion::Legacy => true,
    }
}

/// The lengths of sealed data (nonce, message, tag) on which opening returns rather than
/// panics.
pub open spec fn opening_defined(version: SecretVersion, len: nat) -> bool {
    len <= nonce_length(version) + TAG_LENGTH || cipher_defined(
        version,
        (len - nonce_length(version) - TAG_LENGTH) as nat,
    )
}

/// The scheme that the bytes of a secret select, if they have the form of one.
pub open spec fn secret_version(secret: Seq<u8>) -> Option<SecretVersion> {
    match secret_fields(secret) {
        Some((version, _, _)) => Some(version),
        None => None,
    }
}

/// The ciphertext (with its tag) of a scheme's cipher.
pub open spec fn cipher_output(version: SecretVersion, key: Seq<u8>, nonce: Seq<u8>, data: Seq<u8>) -> Seq<u8> {
    match version {
        SecretVersion::V2 => xchacha20poly1305_ciphertext(key, nonce, data),
        SecretVersion::Legacy => aes256gcm_ciphertext(key, nonce, data),
    }
}

/// The plaintext that a scheme's cipher recovers, if the ciphertext authenticates.
pub open spec fn cipher_input(version: SecretVersion, key: Seq<u8>, nonce: Seq<u8>, ciphertext: Seq<u8>) -> Option<Seq<u8>> {
    match version {
        SecretVersion::V2 => xchacha20poly1305_plaintext(key, nonce, ciphertext),
        SecretVersion::Legacy => aes256gcm_plaintext(key, nonce, ciphertext),
    }
}

/// The sealed message: the nonce followed by the ciphertext.
pub open spec fn sealed_message(version: SecretVersion, key: Seq<u8>, nonce: Seq<u8>, data: Seq<u8>) -> Result<Seq<u8>, EncryptionError> {
    if cipher_accepts(version, data.len()) {
        Ok(nonce + cipher_output(version, key, nonce, data))
    } else {
        Err(EncryptionError::Encryption)
    }
}

/// What opening a sealed message gives.
pub open spec fn opened_message(version: SecretVersion, key: Seq<u8>, data: Seq<u8>) -> Result<Seq<u8>, EncryptionError> {
    let n: int = nonce_length(version) as int;
    if data.len() <= n {
        Err(EncryptionError::CiphertextTooShort)
    } else {
        match cipher_input(version, key, data.take(n), data.skip(n)) {
            Some(plain) => Ok(plain),
            None => Err(EncryptionError::Decryption),
        }
    }
}

/// What encrypting `data` under the bytes of a secret gives with the given nonce.
pub open spec fn encrypted(data: Seq<u8>, secret: Seq<u8>, nonce: Seq<u8>) -> Result<Seq<u8>, EncryptionError> {
    match parsed_secret(secret) {
        Err(e) => Err(e),
        Ok(s) => match derived_key(s) {
            Err(e) => Err(e),
            Ok(key) => sealed_message(s.version, key, nonce, data),
        },
    }
}

/// What decrypting `data` under the bytes of a secret gives.
pub open spec fn decrypted(data: Seq<u8>, secret: Seq<u8>) -> Result<Seq<u8>, EncryptionError> {
    match parsed_secret(secret) {
        Err(e) => Err(e),
        Ok(s) => if data.len() <= nonce_length(s.version) {
            Err(EncryptionError::CiphertextTooShort)
        } else {
            match derived_key(s) {
                Err(e) => Err(e),
                Ok(key) => opened_message(s.version, key, data),
            }
        },
    }
}

/// The view of a text result.
pub open spec fn text_result(r: Result<String, EncryptionError>) -> Result<Seq<char>, EncryptionError> {
    match r {
        Ok(t) => Ok(t@),
        Err(e) => Err(e),
    }
}

/// What encrypting `data` to base64 text under the bytes of a secret gives with the nonce.
pub open spec fn encrypted_text(data: Seq<u8>, secret: Seq<u8>, nonce: Seq<u8>) -> Result<Seq<char>, EncryptionError> {
    match encrypted(data, secret, nonce) {
        Err(e) => Err(e),
        Ok(c) => Ok(base64_standard_encoding(c)),
    }
}

/// What decrypting the base64 text `text` under the bytes of a secret gives.
pub open spec fn decrypted_text(text: Seq<u8>, secret: Seq<u8>) -> Result<Seq<char>, EncryptionError> {
    match base64_standard_decoding(text) {
        None => Err(EncryptionError::InvalidBase64),
        Some(c) => match decrypted(c, secret) {
            Err(e) => Err(e),
            Ok(plain) => if valid_utf8(plain) {
                Ok(decode_utf8(plain))
            } else {
                Err(EncryptionError::InvalidUtf8)
            },
        },
    }
}

/// Law: under a version 2 secret, data is sealed with XChaCha20-Poly1305 under the Argon2id
/// key of the passphrase and salt (19 MiB, 2 passes, 1 lane, 32 bytes): the output is the
/// 24-byte nonce followed by that cipher's ciphertext, and a message longer than its
/// keystream is refused. Sealed data is opened with the same cipher and key under its first
/// 24 bytes; anything no longer than the nonce is too short.
pub proof fn lemma_version_2_scheme(
    data: Seq<u8>,
    secret: Seq<u8>,
    nonce: Seq<u8>,
    sealed: Seq<u8>,
    passphrase: Seq<u8>,
    salt: Seq<u8>,
)
    requires
        parsed_secret(secret) == Ok::<SecretModel, EncryptionError>(
            SecretModel { version: SecretVersion::V2, passphrase, salt },
        ),
        passphrase.len() <= 0xFFFF_FFFF,
    ensures
        ({
            let key = argon2id_v13_output(passphrase, salt, 19456u32, 2u32, 1u32, 32usize);
            &&& data.len() <= 64 * 0xFFFF_FFFE ==> encrypted(data, secret, nonce) == Ok::<
                Seq<u8>,
                EncryptionError,
            >(nonce + xchacha20poly1305_ciphertext(key, nonce, data))
            &&& data.len() > 64 * 0xFFFF_FFFE ==> encrypted(data, secret, nonce) == Err::<
                Seq<u8>,
                EncryptionError,
            >(EncryptionError::Encryption)
            &&& sealed.len() <= 24 ==> decrypted(sealed, secret) == Err::<Seq<u8>, EncryptionError>(
                EncryptionError::CiphertextTooShort,
            )
            &&& sealed.len() > 24 ==> decrypted(sealed, secret) == match xchacha20poly1305_plaintext(
                key,
                sealed.take(24),
                sealed.skip(24),
            ) {
                Some(m) => Ok::<Seq<u8>, EncryptionError>(m),
                None => Err::<Seq<u8>, EncryptionError>(EncryptionError::Decryption),
            }
        }),
{
}

/// Law: under a legacy secret, data is sealed with AES-256-GCM under the PBKDF2-HMAC-SHA256
/// key of the passphrase and salt (1000 iterations, 32 bytes): the output is the 12-byte
/// nonce followed by that cipher's ciphertext, and a message longer than 2^36 bytes is
/// refused. Sealed data is opened with the same cipher and key under its first 12 bytes;
/// anything no longer than the nonce is too short.
pub proof fn lemma_legacy_scheme(
    data: Seq<u8>,
    secret: Seq<u8>,
    nonce: Seq<u8>,
    sealed: Seq<u8>,
    passphrase: Seq<u8>,
    salt: Seq<u8>,
)
    requires
        parsed_secret(secret) == Ok::<SecretModel, EncryptionError>(
            SecretModel { version: SecretVersion::Legacy, passphrase, salt },
        ),
    ensures
        ({
            let key = pbkdf2_hmac_sha256_output(passphrase, salt, 1000u32, 32usize);
            &&& data.len() <= 0x10_0000_0000 ==> encrypted(data, secret, nonce) == Ok::<
                Seq<u8>,
                EncryptionError,
            >(nonce + aes256gcm_ciphertext(key, nonce, data))
            &&& data.len() > 0x10_0000_0000 ==> encrypted(data, secret, nonce) == Err::<
                Seq<u8>,
                EncryptionError,
            >(EncryptionError::Encryption)
            &&& sealed.len() <= 12 ==> decrypted(sealed, secret) == Err::<Seq<u8>, EncryptionError>(
                EncryptionError::CiphertextTooShort,
            )
            &&& sealed.len() > 12 ==> decrypted(sealed, secret) == match aes256gcm_plaintext(
                key,
                sealed.take(12),
                sealed.skip(12),
            ) {
                Some(m) => Ok::<Seq<u8>, EncryptionError>(m),
                None => Err::<Seq<u8>, EncryptionError>(EncryptionError::Decryption),
            }
        }),
{
}

/// The nonce length of a scheme.
pub fn nonce_length_of(version: SecretVersion) -> (n: usize)
    ensures
        n == nonce_length(version),
{
    match version {
        SecretVersion::V2 => XNONCE_LENGTH,
        SecretVersion::Legacy => LEGACY_NONCE_LENGTH,
    }
}

/// Encrypts `data` with the scheme's cipher under `key` and `nonce`, and prefixes the nonce.
pub fn seal(version: SecretVersion, key: &[u8], nonce: &[u8], data: &[u8]) -> (sealed: Result<Vec<u8>, EncryptionError>)
    requires
        key@.len() == KEY_LENGTH,
        nonce@.len() == nonce_length(version),
        nonce@.len() + data@.len() + TAG_LENGTH <= usize::MAX,
        cipher_defined(version, data@.len()),
    ensures
        bytes_result(sealed) == sealed_message(version, key@, nonce@, data@),
        sealed matches Ok(c) ==> c@.len() == nonce@.len() + data@.len() + TAG_LENGTH
            && opened_message(version, key@, c@) == Ok::<Seq<u8>, EncryptionError>(data@),
{
    let ciphertext = match version {
        SecretVersion::V2 => xchacha20poly1305_encrypt(key, nonce, data),
        SecretVersion::Legacy => aes256gcm_encrypt(key, nonce, data),
    };
    match ciphertext {
        None => Err(EncryptionError::Encryption),
        Some(mut ciphertext) => {
            let ghost ct = ciphertext@;
            let mut out = slice_to_vec(nonce);
            out.append(&mut ciphertext);
            proof {
                let n: int = nonce@.len() as int;
                assert(out@.take(n) =~= nonce@);
                assert(out@.skip(n) =~= ct);
            }
            Ok(out)
        },
    }
}

/// Splits off the scheme's nonce and decrypts the rest under `key`.
pub fn open(version: SecretVersion, key: &[u8], data: &[u8]) -> (plain: Result<Vec<u8>, EncryptionError>)
    requires
        key@.len() == KEY_LENGTH,
        opening_defined(version, data@.len()),
    ensures
        bytes_result(plain) == opened_message(version, key@, data@),
        plain matches Ok(p) ==> p@.len() + nonce_length(version) + TAG_LENGTH == data@.len(),
{
    let n: usize = nonce_length_of(version);
    if data.len() <= n {
        return Err(EncryptionError::CiphertextTooShort);
    }
    let (nonce, ciphertext) = data.split_at(n);
    assert(nonce@ =~= data@.take(n as int));
    assert(ciphertext@ =~= data@.skip(n as int));
    let plain = match version {
        SecretVersion::V2 => xchacha20poly1305_decrypt(key, nonce, ciphertext),
        SecretVersion::Legacy => aes256gcm_decrypt(key, nonce, ciphertext),
    };
    match plain {
        Some(p) => Ok(p),
        None => Err(EncryptionError::Decryption),
    }
}

/// Encrypts `data` with the scheme that the secret selects, under a fresh random nonce.
/// The output is the nonce followed by the ciphertext.
pub fn encrypt_data(data: &[u8], combined_passphrase_salt: &str) -> (out: Result<Vec<u8>, EncryptionError>)
    requires
        data@.len() + secret_nonce_length(encode_utf8(combined_passphrase_salt@)) + TAG_LENGTH <= usize::MAX,
        secret_version(encode_utf8(combined_passphrase_salt@)) matches Some(v) ==> cipher_defined(v, data@.len()),
    ensures
        exists|nonce: Seq<u8>|
            nonce.len() == secret_nonce_length(encode_utf8(combined_passphrase_salt@))
                && bytes_result(out) == #[trigger] encrypted(data@, encode_utf8(combined_passphrase_salt@), nonce),
        out matches Ok(c) ==> c@.len() == secret_nonce_length(encode_utf8(combined_passphrase_salt@))
            + data@.len() + TAG_LENGTH,
        out matches Ok(c) ==> decrypted(c@, encode_utf8(combined_passphrase_salt@)) == Ok::<Seq<u8>, EncryptionError>(data@),
{
    let ghost secret_bytes = encode_utf8(combined_passphrase_salt@);
    let ghost any_nonce = Seq::new(secret_nonce_length(secret_bytes), |i: int| 0u8);
    let secret = match parse_secret(combined_passphrase_salt) {
        Ok(s) => s,
        Err(e) => {
            assert(encrypted(data@, secret_bytes, any_nonce) == Err::<Seq<u8>, EncryptionError>(e));
            return Err(e);
        },
    };
    let key = match derive_key(&secret) {
        Ok(k) => k,
        Err(e) => {
            assert(encrypted(data@, secret_bytes, any_nonce) == Err::<Seq<u8>, EncryptionError>(e));
            return Err(e);
        },
    };
    let version = secret.version();
    let nonce = random_bytes(nonce_length_of(version));
    let out = seal(version, key.as_slice(), nonce.as_slice(), data);
    assert(bytes_result(out) == encrypted(data@, secret_bytes, nonce@));
    out
}

/// Decrypts `data` (a nonce followed by a ciphertext) with the scheme that the secret selects.
pub fn decrypt_data(data: &[u8], combined_passphrase_salt: &str) -> (plain: Result<Vec<u8>, EncryptionError>)
    requires
        secret_version(encode_utf8(combined_passphrase_salt@)) matches Some(v) ==> opening_defined(v, data@.len()),
    ensures
        bytes_result(plain) == decrypted(data@, encode_utf8(combined_passphrase_salt@)),
        plain matches Ok(p) ==> p@.len() + secret_nonce_length(encode_utf8(combined_passphrase_salt@))
            + TAG_LENGTH == data@.len(),
{
    let secret = match parse_secret(combined_passphrase_salt) {
        Ok(s) => s,
        Err(e) => return Err(e),
    };
    let version = secret.version();
    if data.len() <= nonce_length_of(version) {
        return Err(EncryptionError::CiphertextTooShort);
    }
    let key = match derive_key(&secret) {
        Ok(k) => k,
        Err(e) => return Err(e),
    };
    open(version, key.as_slice(), data)
}

/// Encrypts `data` as `encrypt_data` does and returns the output as standard base64 text.
pub fn encrypt_text(data: &[u8], combined_passphrase_salt: &str) -> (text: Result<String, EncryptionError>)
    requires
        data@.len() + secret_nonce_length(encode_utf8(combined_passphrase_salt@)) + TAG_LENGTH <= usize::MAX,
        secret_version(encode_utf8(combined_passphrase_salt@)) matches Some(v) ==> cipher_defined(v, data@.len()),
        base64_encoded_len(
            (data@.len() + secret_nonce_length(encode_utf8(combined_passphrase_salt@)) + TAG_LENGTH) as nat,
        ) <= usize::MAX,
    ensures
        exists|nonce: Seq<u8>|
            nonce.len() == secret_nonce_length(encode_utf8(combined_passphrase_salt@))
                && text_result(text) == #[trigger] encrypted_text(data@, encode_utf8(combined_passphrase_salt@), nonce),
        text matches Ok(t) ==> decrypted_text(encode_utf8(t@), encode_utf8(combined_passphrase_salt@)) == if valid_utf8(data@) {
            Ok::<Seq<char>, EncryptionError>(decode_utf8(data@))
        } else {
            Err::<Seq<char>, EncryptionError>(EncryptionError::InvalidUtf8)
        },
        text matches Ok(t) ==> {
            &&& t@.len() == base64_encoded_len(
                (secret_nonce_length(encode_utf8(combined_passphrase_salt@)) + data@.len() + TAG_LENGTH) as nat,
            )
            &&& t@.len() % 4 == 0
            &&& forall|i: int| 0 <= i < t@.len() ==> is_base64_char(#[trigger] t@[i])
            &&& base64_standard_decoding(encode_utf8(t@)) matches Some(c) && c.len()
                == secret_nonce_length(encode_utf8(combined_passphrase_salt@)) + data@.len() + TAG_LENGTH
                && decrypted(c, encode_utf8(combined_passphrase_salt@)) == Ok::<Seq<u8>, EncryptionError>(data@)
        },
{
    let ghost secret_bytes = encode_utf8(combined_passphrase_salt@);
    let encrypted_bytes = encrypt_data(data, combined_passphrase_salt);
    let ghost nonce = choose|nonce: Seq<u8>|
        nonce.len() == secret_nonce_length(secret_bytes)
            && bytes_result(encrypted_bytes) == #[trigger] encrypted(data@, secret_bytes, nonce);
    match encrypted_bytes {
        Err(e) => {
            assert(encrypted_text(data@, secret_bytes, nonce) == Err::<Seq<char>, EncryptionError>(e));
            Err(e)
        },
        Ok(c) => {
            let t = base64_encode(c.as_slice());
            proof {
                lemma_base64_encoding_shape(c@);
            }
            assert(encrypted_text(data@, secret_bytes, nonce) == Ok::<Seq<char>, EncryptionError>(t@));
            Ok(t)
        },
    }
}

/// Decodes standard base64 text and decrypts it as `decrypt_data` does; the plaintext
/// must be UTF-8.
pub fn decrypt_text(data: &[u8], combined_passphrase_salt: &str) -> (text: Result<String, EncryptionError>)
    requires
        secret_version(encode_utf8(combined_passphrase_salt@)) == Some(SecretVersion::V2) ==> data@.len()
            <= 64 * 0xFFFF_FFFE,
    ensures
        text_result(text) == decrypted_text(data@, encode_utf8(combined_passphrase_salt@)),
        text_result(text) == Err::<Seq<char>, EncryptionError>(EncryptionError::InvalidBase64) <==> !exists|
            d: Seq<u8>,
        | encode_utf8(#[trigger] base64_standard_encoding(d)) == data@,
{
    let encrypted_bytes = match base64_decode(data) {
        Some(e) => e,
        None => return Err(EncryptionError::InvalidBase64),
    };
    proof {
        lemma_base64_text_bytes(encrypted_bytes@);
    }
    let decrypted_bytes = match decrypt_data(encrypted_bytes.as_slice(), combined_passphrase_salt) {
        Ok(d) => d,
        Err(e) => return Err(e),
    };
    match string_from_utf8(decrypted_bytes) {
        Some(t) => Ok(t),
        None => Err(EncryptionError::InvalidUtf8),
    }
}

/// An ASCII letter or digit.
pub open spec fn is_alphanumeric_char(c: char) -> bool {
    ('A' <= c && c <= 'Z') || ('a' <= c && c <= 'z') || ('0' <= c && c <= '9')
}

/// The text of a version 2 secret: `v2$<passphrase>$<salt_b64>`.
pub open spec fn composed_secret(passphrase: Seq<char>, salt: Seq<u8>) -> Seq<char> {
    seq!['v', '2', '$'] + passphrase + seq!['$'] + base64_standard_encoding(salt)
}

/// Generates a random passphrase of 30 ASCII letters and digits (62 possible characters
/// each, so 62^30 passphrases).
pub fn generate_random_passphrase() -> (passphrase: String)
    ensures
        passphrase@.len() == PASSPHRASE_LENGTH,
        forall|i: int| 0 <= i < passphrase@.len() ==> is_alphanumeric_char(#[trigger] passphrase@[i]),
{
    let mut passphrase = String::new();
    let mut i: usize = 0;
    while i < PASSPHRASE_LENGTH
        invariant
            i <= PASSPHRASE_LENGTH,
            passphrase@.len() == i,
            forall|k: int| 0 <= k < passphrase@.len() ==> is_alphanumeric_char(#[trigger] passphrase@[k]),
        decreases PASSPHRASE_LENGTH - i,
    {
        let b: u8 = random_alphanumeric();
        let c: char = b as char;
        string_push(&mut passphrase, c);
        i = i + 1;
    }
    passphrase
}

/// Generates a random salt.
pub fn generate_random_salt() -> (salt: Vec<u8>)
    ensures
        salt@.len() == SALT_LENGTH,
{
    random_bytes(SALT_LENGTH)
}

/// Composes the text of a version 2 secret from a passphrase and a salt. Where the
/// passphrase holds no `$`, the text parses back to that passphrase and salt (or, for a
/// salt of the wrong length, to that error).
pub fn compose_secret(passphrase: &str, salt: &[u8]) -> (secret: String)
    requires
        base64_encoded_len(salt@.len()) <= usize::MAX,
    ensures
        secret@ == composed_secret(passphrase@, salt@),
        (forall|i: int| 0 <= i < passphrase@.len() ==> #[trigger] passphrase@[i] != '$')
            ==> parsed_secret(encode_utf8(secret@)) == salted_secret(
            SecretVersion::V2,
            encode_utf8(passphrase@),
            Some(salt@),
        ),
{
    let mut secret = String::new();
    string_push(&mut secret, 'v');
    string_push(&mut secret, '2');
    string_push(&mut secret, '$');
    secret.append(passphrase);
    string_push(&mut secret, '$');
    let encoded = base64_encode(salt);
    secret.append(encoded.as_str());
    assert(secret@ =~= composed_secret(passphrase@, salt@));
    proof {
        if forall|i: int| 0 <= i < passphrase@.len() ==> #[trigger] passphrase@[i] != '$' {
            lemma_composed_secret_fields(passphrase@, salt@);
        }
    }
    secret
}

proof fn lemma_composed_secret_fields(passphrase: Seq<char>, salt: Seq<u8>)
    requires
        forall|i: int| 0 <= i < passphrase.len() ==> #[trigger] passphrase[i] != '$',
    ensures
        secret_fields(encode_utf8(composed_secret(passphrase, salt))) == Some(
            (SecretVersion::V2, encode_utf8(passphrase), encode_utf8(base64_standard_encoding(salt))),
        ),
{
    let tag = seq!['v', '2', '$'];
    let dollar = seq!['$'];
    let encoded = base64_standard_encoding(salt);
    lemma_base64_encoding_shape(salt);
    assert(is_ascii_chars(tag));
    assert(is_ascii_chars(dollar));
    is_ascii_chars_encode_utf8(tag);
    is_ascii_chars_encode_utf8(dollar);
    assert(encode_utf8(tag) =~= version_tag() + seq![CONCATENATED_DELIMITER]);
    assert(encode_utf8(dollar) =~= seq![CONCATENATED_DELIMITER]);
    lemma_encode_utf8_concat(tag, passphrase);
    lemma_encode_utf8_concat(tag + passphrase, dollar);
    lemma_encode_utf8_concat(tag + passphrase + dollar, encoded);
    lemma_encode_utf8_no_dollar(passphrase);
    assert forall|i: int| 0 <= i < encoded.len() implies #[trigger] encoded[i] != '$' by {
        assert(is_base64_char(encoded[i]));
    }
    lemma_encode_utf8_no_dollar(encoded);
    assert(has_no_delimiter(encode_utf8(passphrase)));
    assert(has_no_delimiter(encode_utf8(encoded)));
    lemma_version_2_layout(encode_utf8(passphrase), encode_utf8(encoded));
    assert(encode_utf8(composed_secret(passphrase, salt)) =~= version_tag() + seq![CONCATENATED_DELIMITER]
        + encode_utf8(passphrase) + seq![CONCATENATED_DELIMITER] + encode_utf8(encoded));
}

/// Generates a new encryption secret: the version tag `v2`, a random passphrase of 30
/// letters and digits, and a random 16-byte salt in base64, joined by `$`. The secret
/// parses back to that passphrase and salt as a version 2 secret.
pub fn generate_encryption_secret() -> (secret: String)
    ensures
        exists|passphrase: Seq<char>, salt: Seq<u8>|
            #![trigger composed_secret(passphrase, salt)]
            {
                &&& passphrase.len() == PASSPHRASE_LENGTH
                &&& forall|i: int| 0 <= i < passphrase.len() ==> is_alphanumeric_char(#[trigger] passphrase[i])
                &&& salt.len() == SALT_LENGTH
                &&& secret@ == composed_secret(passphrase, salt)
                &&& base64_standard_encoding(salt).len() == 24
                &&& base64_standard_encoding(salt)[22] == '=' && base64_standard_encoding(salt)[23] == '='
                &&& secret@.len() == 58
                &&& parsed_secret(encode_utf8(secret@)) == Ok::<SecretModel, EncryptionError>(
                    SecretModel { version: SecretVersion::V2, passphrase: encode_utf8(passphrase), salt },
                )
            },
{
    let passphrase = generate_random_passphrase();
    let salt = generate_random_salt();
    let secret = compose_secret(passphrase.as_str(), salt.as_slice());
    proof {
        assert forall|i: int| 0 <= i < passphrase@.len() implies #[trigger] passphrase@[i] != '$' by {
            assert(is_alphanumeric_char(passphrase@[i]));
        }
        assert(composed_secret(passphrase@, salt@) == secret@);
        lemma_base64_encoding_shape(salt@);
    }
    secret
}

} // verus!
