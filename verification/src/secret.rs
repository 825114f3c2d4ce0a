//! Versioned encryption secrets: `<passphrase>$<salt_b64>` (legacy: PBKDF2-HMAC-SHA256 and
//! AES-256-GCM) and `v2$<passphrase>$<salt_b64>` (Argon2id and XChaCha20-Poly1305).
//! Parsing, composing and key derivation.

use vstd::prelude::*;
use vstd::utf8::encode_utf8;

use crate::base64_codec::{base64_decode, base64_standard_decoding, opt_bytes};
use crate::error::EncryptionError;
use crate::kdf::{argon2id_hash, argon2id_v13_output, pbkdf2_hmac_sha256, pbkdf2_hmac_sha256_output};

verus! {

/// The length of the salt in bytes.
pub const SALT_LENGTH: usize = 16;

/// The length of the derived encryption key in bytes.
pub const KEY_LENGTH: usize = 32;

/// The number of iterations for the legacy PBKDF2 key derivation.
pub const LEGACY_PBKDF2_ITERATIONS: u32 = 1000;

/// Argon2id memory cost in KiB (19 MiB, OWASP recommendation).
pub const ARGON2_MEMORY_KIB: u32 = 19 * 1024;

/// Argon2id iteration count (OWASP recommendation).
pub const ARGON2_ITERATIONS: u32 = 2;

/// Argon2id lanes.
pub const ARGON2_PARALLELISM: u32 = 1;

/// The byte of the delimiter `$` that separates the parts of a secret.
pub const CONCATENATED_DELIMITER: u8 = 36;

/// The two bytes `v2` of the version tag of Argon2id + XChaCha20-Poly1305 secrets.
pub open spec fn version_tag() -> Seq<u8> {
    seq![118u8, 50u8]
}

/// The scheme that a secret selects.
#[derive(Debug, Clone, Copy, PartialEq, Eq, Structural)]
pub enum SecretVersion {
    /// `<passphrase>$<salt_b64>`: PBKDF2-HMAC-SHA256 and AES-256-GCM.
    Legacy,
    /// `v2$<passphrase>$<salt_b64>`: Argon2id and XChaCha20-Poly1305.
    V2,
}

/// A parsed secret as values: its scheme, the bytes of its passphrase and its salt.
pub struct SecretModel {
    pub version: SecretVersion,
    pub passphrase: Seq<u8>,
    pub salt: Seq<u8>,
}

/// A parsed secret: the passphrase borrows the secret text; the salt is decoded.
pub struct Secret<'a> {
    version: SecretVersion,
    passphrase: &'a [u8],
    salt: Vec<u8>,
}

impl<'a> View for Secret<'a> {
    type V = SecretModel;

    closed spec fn view(&self) -> SecretModel {
        SecretModel { version: self.version, passphrase: self.passphrase@, salt: self.salt@ }
    }
}

impl<'a> Secret<'a> {
    /// The scheme the secret selects.
    pub fn version(&self) -> (v: SecretVersion)
        ensures
            v == self@.version,
    {
        self.version
    }

    /// The bytes of the passphrase.
    pub fn passphrase(&self) -> (p: &[u8])
        ensures
            p@ == self@.passphrase,
    {
        self.passphrase
    }

    /// The decoded salt.
    pub fn salt(&self) -> (s: &[u8])
        ensures
            s@ == self@.salt,
    {
        self.salt.as_slice()
    }
}

/// The view of a parse result.
pub open spec fn secret_result_view(r: Result<Secret, EncryptionError>) -> Result<SecretModel, EncryptionError> {
    match r {
        Ok(s) => Ok(s@),
        Err(e) => Err(e),
    }
}

/// The parts of `s` between the delimiters, as `str::split` gives them: one more part
/// than there are delimiters, empty parts included.
pub open spec fn split_on_delimiter(s: Seq<u8>) -> Seq<Seq<u8>>
    decreases s.len(),
{
    if s.len() == 0 {
        seq![Seq::<u8>::empty()]
    } else {
        let parts = split_on_delimiter(s.drop_last());
        if s.last() == CONCATENATED_DELIMITER {
            parts.push(Seq::<u8>::empty())
        } else {
            parts.update(parts.len() - 1, parts.last().push(s.last()))
        }
    }
}

/// There is always at least one part.
pub proof fn lemma_split_nonempty(s: Seq<u8>)
    ensures
        split_on_delimiter(s).len() >= 1,
    decreases s.len(),
{
    if s.len() > 0 {
        lemma_split_nonempty(s.drop_last());
    }
}

/// Bytes without the delimiter.
pub open spec fn has_no_delimiter(s: Seq<u8>) -> bool {
    forall|i: int| 0 <= i < s.len() ==> #[trigger] s[i] != CONCATENATED_DELIMITER
}

/// Bytes without the delimiter are a single part.
pub proof fn lemma_split_plain(t: Seq<u8>)
    requires
        has_no_delimiter(t),
    ensures
        split_on_delimiter(t) == seq![t],
    decreases t.len(),
{
    if t.len() > 0 {
        assert(has_no_delimiter(t.drop_last())) by {
            assert forall|i: int| 0 <= i < t.drop_last().len() implies #[trigger] t.drop_last()[i]
                != CONCATENATED_DELIMITER by {
                assert(t.drop_last()[i] == t[i]);
            }
        };
        lemma_split_plain(t.drop_last());
        assert(t[t.len() - 1] != CONCATENATED_DELIMITER);
        assert(t.drop_last().push(t.last()) =~= t);
        assert(seq![t.drop_last()].update(0, t.drop_last().push(t.last())) =~= seq![t]);
    } else {
        assert(t =~= Seq::<u8>::empty());
    }
}

/// A delimiter followed by bytes without one adds those bytes as a last part.
pub proof fn lemma_split_append_plain(x: Seq<u8>, t: Seq<u8>)
    requires
        has_no_delimiter(t),
    ensures
        split_on_delimiter(x + seq![CONCATENATED_DELIMITER] + t) == split_on_delimiter(x).push(t),
    decreases t.len(),
{
    let s = x + seq![CONCATENATED_DELIMITER] + t;
    if t.len() == 0 {
        assert(s.drop_last() =~= x);
        assert(t =~= Seq::<u8>::empty());
    } else {
        let t0 = t.drop_last();
        assert(has_no_delimiter(t0)) by {
            assert forall|i: int| 0 <= i < t0.len() implies #[trigger] t0[i] != CONCATENATED_DELIMITER by {
                assert(t0[i] == t[i]);
            }
        };
        lemma_split_append_plain(x, t0);
        assert(s.drop_last() =~= x + seq![CONCATENATED_DELIMITER] + t0);
        assert(s.last() == t[t.len() - 1]);
        assert(s.last() != CONCATENATED_DELIMITER);
        assert(t0.push(s.last()) =~= t);
        let parts = split_on_delimiter(x).push(t0);
        assert(parts.update(parts.len() - 1, parts.last().push(s.last())) =~= split_on_delimiter(x).push(t));
    }
}

/// Law: the bytes `v2$<passphrase>$<salt_text>`, with no delimiter in the passphrase or
/// the salt text, are read as a version 2 secret with exactly those parts.
pub proof fn lemma_version_2_layout(passphrase: Seq<u8>, salt_text: Seq<u8>)
    requires
        has_no_delimiter(passphrase),
        has_no_delimiter(salt_text),
    ensures
        secret_fields(
            version_tag() + seq![CONCATENATED_DELIMITER] + passphrase + seq![CONCATENATED_DELIMITER] + salt_text,
        ) == Some((SecretVersion::V2, passphrase, salt_text)),
{
    lemma_split_plain(version_tag());
    lemma_split_append_plain(version_tag(), passphrase);
    lemma_split_append_plain(version_tag() + seq![CONCATENATED_DELIMITER] + passphrase, salt_text);
    let parts = split_on_delimiter(
        version_tag() + seq![CONCATENATED_DELIMITER] + passphrase + seq![CONCATENATED_DELIMITER] + salt_text,
    );
    assert(parts =~= seq![version_tag(), passphrase, salt_text]);
}

/// Law: the bytes `<passphrase>$<salt_text>`, with no delimiter in either part, are read as
/// a legacy secret with exactly those parts.
pub proof fn lemma_legacy_layout(passphrase: Seq<u8>, salt_text: Seq<u8>)
    requires
        has_no_delimiter(passphrase),
        has_no_delimiter(salt_text),
    ensures
        secret_fields(passphrase + seq![CONCATENATED_DELIMITER] + salt_text) == Some(
            (SecretVersion::Legacy, passphrase, salt_text),
        ),
{
    lemma_split_plain(passphrase);
    lemma_split_append_plain(passphrase, salt_text);
    assert(split_on_delimiter(passphrase + seq![CONCATENATED_DELIMITER] + salt_text) =~= seq![passphrase, salt_text]);
}

/// The scheme, the passphrase and the base64 salt text that the parts of a secret give:
/// three parts of which the first is `v2`, or two parts; anything else is no secret.
pub open spec fn secret_fields(s: Seq<u8>) -> Option<(SecretVersion, Seq<u8>, Seq<u8>)> {
    let parts = split_on_delimiter(s);
    if parts.len() == 3 && parts[0] == version_tag() {
        Some((SecretVersion::V2, parts[1], parts[2]))
    } else if parts.len() == 2 {
        Some((SecretVersion::Legacy, parts[0], parts[1]))
    } else {
        None
    }
}

/// The secret that a scheme, a passphrase and the decoded salt give, if the salt decoded
/// and has the salt length.
pub open spec fn salted_secret(
    version: SecretVersion,
    passphrase: Seq<u8>,
    decoded_salt: Option<Seq<u8>>,
) -> Result<SecretModel, EncryptionError> {
    match decoded_salt {
        None => Err(EncryptionError::InvalidSaltEncoding),
        Some(salt) => if salt.len() != SALT_LENGTH {
            Err(EncryptionError::IncorrectSaltLength)
        } else {
            Ok(SecretModel { version, passphrase, salt })
        },
    }
}

/// What parsing the bytes of a secret gives.
pub open spec fn parsed_secret(s: Seq<u8>) -> Result<SecretModel, EncryptionError> {
    match secret_fields(s) {
        None => Err(EncryptionError::InvalidSecretFormat),
        Some((version, passphrase, salt_text)) => salted_secret(
            version,
            passphrase,
            base64_standard_decoding(salt_text),
        ),
    }
}

/// Splits `s` at every delimiter byte.
pub fn split_secret_parts(s: &[u8]) -> (parts: Vec<&[u8]>)
    ensures
        parts@.len() == split_on_delimiter(s@).len(),
        forall|k: int| 0 <= k < parts@.len() ==> #[trigger] parts@[k]@ == split_on_delimiter(s@)[k],
{
    let mut parts: Vec<&[u8]> = Vec::new();
    let mut start: usize = 0;
    let mut i: usize = 0;
    while i < s.len()
        invariant
            start <= i <= s@.len(),
            parts@.len() + 1 == split_on_delimiter(s@.take(i as int)).len(),
            forall|k: int| 0 <= k < parts@.len() ==> #[trigger] parts@[k]@ == split_on_delimiter(s@.take(i as int))[k],
            split_on_delimiter(s@.take(i as int)).last() == s@.subrange(start as int, i as int),
        decreases s@.len() - i,
    {
        proof {
            lemma_split_nonempty(s@.take(i as int));
            assert(s@.take(i + 1).drop_last() =~= s@.take(i as int));
        }
        if s[i] == CONCATENATED_DELIMITER {
            parts.push(&s[start..i]);
            start = i + 1;
            proof {
                assert(s@.subrange(start as int, i + 1) =~= Seq::<u8>::empty());
            }
        } else {
            proof {
                assert(s@.subrange(start as int, i + 1) =~= s@.subrange(start as int, i as int).push(s@[i as int]));
            }
        }
        i = i + 1;
    }
    parts.push(&s[start..s.len()]);
    proof {
        assert(s@.take(s@.len() as int) =~= s@);
    }
    parts
}

/// Reads the scheme, the passphrase and the base64 salt text out of the bytes of a secret.
pub fn read_secret_fields(s: &[u8]) -> (fields: Option<(SecretVersion, &[u8], &[u8])>)
    ensures
        match fields {
            Some((v, p, t)) => secret_fields(s@) == Some((v, p@, t@)),
            None => secret_fields(s@) is None,
        },
{
    let parts = split_secret_parts(s);
    if parts.len() == 3 {
        let version = parts[0];
        if version.len() == 2 && version[0] == 118u8 && version[1] == 50u8 {
            assert(version@ =~= version_tag());
            return Some((SecretVersion::V2, parts[1], parts[2]));
        }
        assert(parts@[0]@ != version_tag());
        None
    } else if parts.len() == 2 {
        Some((SecretVersion::Legacy, parts[0], parts[1]))
    } else {
        None
    }
}

/// Builds the secret from its scheme, its passphrase and the result of decoding its salt.
pub fn secret_with_salt<'a>(
    version: SecretVersion,
    passphrase: &'a [u8],
    decoded_salt: Option<Vec<u8>>,
) -> (secret: Result<Secret<'a>, EncryptionError>)
    ensures
        secret_result_view(secret) == salted_secret(version, passphrase@, opt_bytes(decoded_salt)),
{
    match decoded_salt {
        None => Err(EncryptionError::InvalidSaltEncoding),
        Some(salt) => {
            if salt.len() != SALT_LENGTH {
                Err(EncryptionError::IncorrectSaltLength)
            } else {
                Ok(Secret { version, passphrase, salt })
            }
        },
    }
}

/// Parses a secret, decoding its salt with the standard base64 engine.
pub fn parse_secret(combined: &str) -> (secret: Result<Secret<'_>, EncryptionError>)
    ensures
        secret_result_view(secret) == parsed_secret(encode_utf8(combined@)),
{
    match read_secret_fields(combined.as_bytes()) {
        None => Err(EncryptionError::InvalidSecretFormat),
        Some((version, passphrase, salt_text)) => {
            let decoded = base64_decode(salt_text);
            secret_with_salt(version, passphrase, decoded)
        },
    }
}

/// Law: a legacy secret `<passphrase>$<salt_text>` (no `$` in either part) parses to that
/// very passphrase and the bytes the salt text decodes to, when they are 16; a salt text
/// that does not decode, or decodes to another length, is the matching error.
pub proof fn lemma_parse_legacy_secret(passphrase: Seq<u8>, salt_text: Seq<u8>)
    requires
        has_no_delimiter(passphrase),
        has_no_delimiter(salt_text),
    ensures
        parsed_secret(passphrase + seq![36u8] + salt_text) == match base64_standard_decoding(salt_text) {
            None => Err::<SecretModel, EncryptionError>(EncryptionError::InvalidSaltEncoding),
            Some(salt) => if salt.len() == 16 {
                Ok::<SecretModel, EncryptionError>(
                    SecretModel { version: SecretVersion::Legacy, passphrase, salt },
                )
            } else {
                Err::<SecretModel, EncryptionError>(EncryptionError::IncorrectSaltLength)
            },
        },
{
    lemma_legacy_layout(passphrase, salt_text);
}

/// Law: text without any `$` is no secret.
pub proof fn lemma_parse_without_delimiter(text: Seq<u8>)
    requires
        has_no_delimiter(text),
    ensures
        parsed_secret(text) == Err::<SecretModel, EncryptionError>(EncryptionError::InvalidSecretFormat),
{
    lemma_split_plain(text);
}

/// Law: a version 2 secret `v2$<passphrase>$<salt_text>` (no `$` in either part) parses to
/// that very passphrase and the bytes the salt text decodes to, when they are 16; a salt
/// text that does not decode, or decodes to another length, is the matching error.
pub proof fn lemma_parse_version_2_secret(passphrase: Seq<u8>, salt_text: Seq<u8>)
    requires
        has_no_delimiter(passphrase),
        has_no_delimiter(salt_text),
    ensures
        parsed_secret(seq![118u8, 50u8, 36u8] + passphrase + seq![36u8] + salt_text) == match base64_standard_decoding(
            salt_text,
        ) {
            None => Err::<SecretModel, EncryptionError>(EncryptionError::InvalidSaltEncoding),
            Some(salt) => if salt.len() == 16 {
                Ok::<SecretModel, EncryptionError>(SecretModel { version: SecretVersion::V2, passphrase, salt })
            } else {
                Err::<SecretModel, EncryptionError>(EncryptionError::IncorrectSaltLength)
            },
        },
{
    lemma_version_2_layout(passphrase, salt_text);
    assert(seq![118u8, 50u8, 36u8] =~= version_tag() + seq![CONCATENATED_DELIMITER]);
}

/// The key that a secret's scheme derives from its passphrase and salt.
pub open spec fn derived_key(secret: SecretModel) -> Result<Seq<u8>, EncryptionError> {
    match secret.version {
        SecretVersion::V2 => if secret.passphrase.len() <= 0xFFFF_FFFF {
            Ok(
                argon2id_v13_output(
                    secret.passphrase,
                    secret.salt,
                    ARGON2_MEMORY_KIB,
                    ARGON2_ITERATIONS,
                    ARGON2_PARALLELISM,
                    KEY_LENGTH,
                ),
            )
        } else {
            Err(EncryptionError::KeyDerivation)
        },
        SecretVersion::Legacy => Ok(
            pbkdf2_hmac_sha256_output(
                secret.passphrase,
                secret.salt,
                LEGACY_PBKDF2_ITERATIONS,
                KEY_LENGTH,
            ),
        ),
    }
}

/// The view of a key derivation result.
pub open spec fn bytes_result(r: Result<Vec<u8>, EncryptionError>) -> Result<Seq<u8>, EncryptionError> {
    match r {
        Ok(b) => Ok(b@),
        Err(e) => Err(e),
    }
}

/// Derives a key with Argon2id (19 MiB, 2 iterations, 1 lane, 32 bytes).
pub fn derive_key_argon2id(passphrase: &[u8], salt: &[u8]) -> (key: Result<Vec<u8>, EncryptionError>)
    requires
        salt@.len() == SALT_LENGTH,
    ensures
        bytes_result(key) == derived_key(
            SecretModel { version: SecretVersion::V2, passphrase: passphrase@, salt: salt@ },
        ),
        key matches Ok(k) ==> k@.len() == KEY_LENGTH,
{
    match argon2id_hash(passphrase, salt, ARGON2_MEMORY_KIB, ARGON2_ITERATIONS, ARGON2_PARALLELISM, KEY_LENGTH) {
        Some(key) => Ok(key),
        None => Err(EncryptionError::KeyDerivation),
    }
}

/// Derives a key with PBKDF2-HMAC-SHA256 (1000 iterations, 32 bytes).
pub fn derive_key_pbkdf2(passphrase: &[u8], salt: &[u8]) -> (key: Result<Vec<u8>, EncryptionError>)
    ensures
        bytes_result(key) == derived_key(
            SecretModel { version: SecretVersion::Legacy, passphrase: passphrase@, salt: salt@ },
        ),
        key matches Ok(k) ==> k@.len() == KEY_LENGTH,
{
    match pbkdf2_hmac_sha256(passphrase, salt, LEGACY_PBKDF2_ITERATIONS, KEY_LENGTH) {
        Some(key) => Ok(key),
        None => Err(EncryptionError::KeyDerivation),
    }
}

/// Derives the key that the secret's scheme selects.
pub fn derive_key(secret: &Secret) -> (key: Result<Vec<u8>, EncryptionError>)
    requires
        secret@.salt.len() == SALT_LENGTH,
    ensures
        bytes_result(key) == derived_key(secret@),
        key matches Ok(k) ==> k@.len() == KEY_LENGTH,
{
    match secret.version {
        SecretVersion::V2 => derive_key_argon2id(secret.passphrase, secret.salt.as_slice()),
        SecretVersion::Legacy => derive_key_pbkdf2(secret.passphrase, secret.salt.as_slice()),
    }
}

} // verus!
