use base64::engine::general_purpose::STANDARD;
use base64::Engine;
use flowy_encryption::encryption::{
    compose_secret, decrypt_data, decrypt_text, encrypt_data, encrypt_text,
    generate_encryption_secret, generate_random_passphrase, generate_random_salt, open, seal,
};
use flowy_encryption::error::EncryptionError;
use flowy_encryption::secret::{
    derive_key_argon2id, derive_key_pbkdf2, parse_secret, read_secret_fields,
    split_secret_parts, SecretVersion,
};

fn generate_legacy_secret() -> String {
    let passphrase = generate_random_passphrase();
    let salt = generate_random_salt();
    format!("{}{}{}", passphrase, "$", STANDARD.encode(salt))
}

#[test]
fn encrypt_decrypt_test() {
    let secret = generate_encryption_secret();
    assert!(secret.starts_with("v2$"));

    let data = b"hello world";
    let encrypted = encrypt_data(data, &secret).unwrap();
    let decrypted = decrypt_data(&encrypted, &secret).unwrap();
    assert_eq!(data, decrypted.as_slice());

    let s = "123".to_string();
    let encrypted = encrypt_text(s.as_bytes(), &secret).unwrap();
    let decrypted_str = decrypt_text(encrypted.as_bytes(), &secret).unwrap();
    assert_eq!(s, decrypted_str);
}

#[test]
fn legacy_secret_roundtrip_test() {
    let secret = generate_legacy_secret();
    let data = b"hello legacy";
    let encrypted = encrypt_data(data, &secret).unwrap();
    let decrypted = decrypt_data(&encrypted, &secret).unwrap();
    assert_eq!(data, decrypted.as_slice());
}

#[test]
fn decrypt_with_invalid_secret_test() {
    let secret = generate_encryption_secret();
    let data = b"hello world";
    let encrypted = encrypt_data(data, &secret).unwrap();
    let decrypted = decrypt_data(&encrypted, "invalid secret");
    assert!(decrypted.is_err());

    let other_secret = generate_encryption_secret();
    assert!(decrypt_data(&encrypted, &other_secret).is_err());
}

#[test]
fn tampered_ciphertext_test() {
    let secret = generate_encryption_secret();
    let mut encrypted = encrypt_data(b"hello world", &secret).unwrap();
    let last = encrypted.len() - 1;
    encrypted[last] ^= 0xFF;
    assert!(decrypt_data(encrypted.as_slice(), &secret).is_err());
}

#[test]
fn generated_secret_layout() {
    let secret = generate_encryption_secret();
    let parts: Vec<&str> = secret.split('$').collect();
    assert_eq!(parts.len(), 3);
    assert_eq!(parts[0], "v2");
    assert_eq!(parts[1].len(), 30);
    assert!(parts[1].chars().all(|c| c.is_ascii_alphanumeric()));
    assert_eq!(STANDARD.decode(parts[2]).unwrap().len(), 16);
    let parsed = parse_secret(&secret).unwrap();
    assert_eq!(parsed.version(), SecretVersion::V2);
    assert_eq!(parsed.passphrase(), parts[1].as_bytes());
}

#[test]
fn random_passphrase_and_salt() {
    let passphrase = generate_random_passphrase();
    assert_eq!(passphrase.len(), 30);
    assert!(passphrase.chars().all(|c| c.is_ascii_alphanumeric()));
    assert_eq!(generate_random_salt().len(), 16);
}

#[test]
fn compose_secret_exact_text() {
    let secret = compose_secret("abc", &[0u8; 16]);
    assert_eq!(secret, "v2$abc$AAAAAAAAAAAAAAAAAAAAAA==");
    let parsed = parse_secret(&secret).unwrap();
    assert_eq!(parsed.version(), SecretVersion::V2);
    assert_eq!(parsed.passphrase(), b"abc");
    assert_eq!(parsed.salt(), &[0u8; 16]);
}

#[test]
fn compose_secret_with_short_salt_does_not_parse() {
    let secret = compose_secret("abc", &[1u8, 2, 3]);
    assert_eq!(parse_secret(&secret).err(), Some(EncryptionError::IncorrectSaltLength));
}

#[test]
fn split_parts_like_str_split() {
    let parts = split_secret_parts(b"a$$bc$");
    let expected: Vec<&[u8]> = vec![b"a", b"", b"bc", b""];
    assert_eq!(parts, expected);
    let single = split_secret_parts(b"");
    assert_eq!(single, vec![b"" as &[u8]]);
}

#[test]
fn secret_fields_by_shape() {
    assert_eq!(
        read_secret_fields(b"pass$c2FsdA=="),
        Some((SecretVersion::Legacy, b"pass" as &[u8], b"c2FsdA==" as &[u8]))
    );
    assert_eq!(
        read_secret_fields(b"v2$pass$c2FsdA=="),
        Some((SecretVersion::V2, b"pass" as &[u8], b"c2FsdA==" as &[u8]))
    );
    assert_eq!(read_secret_fields(b"v3$pass$c2FsdA=="), None);
    assert_eq!(read_secret_fields(b"nodelimiter"), None);
    assert_eq!(read_secret_fields(b"a$b$c$d"), None);
    assert_eq!(
        read_secret_fields(b"v2$salt"),
        Some((SecretVersion::Legacy, b"v2" as &[u8], b"salt" as &[u8]))
    );
}

#[test]
fn parse_secret_errors() {
    assert_eq!(parse_secret("invalid secret").err(), Some(EncryptionError::InvalidSecretFormat));
    assert_eq!(parse_secret("pass$!!!!").err(), Some(EncryptionError::InvalidSaltEncoding));
    assert_eq!(parse_secret("pass$AAAA").err(), Some(EncryptionError::IncorrectSaltLength));
    assert_eq!(
        parse_secret("v2$pass$AAAAAAAAAAAAAAAAAAAAAA==").map(|s| s.version()),
        Ok(SecretVersion::V2)
    );
    assert_eq!(
        parse_secret("pass$AAAAAAAAAAAAAAAAAAAAAA==").map(|s| s.version()),
        Ok(SecretVersion::Legacy)
    );
}

#[test]
fn ciphertext_lengths() {
    let v2 = generate_encryption_secret();
    assert_eq!(encrypt_data(b"hello", &v2).unwrap().len(), 24 + 5 + 16);
    let legacy = generate_legacy_secret();
    assert_eq!(encrypt_data(b"hello", &legacy).unwrap().len(), 12 + 5 + 16);
    assert_eq!(encrypt_data(b"", &legacy).unwrap().len(), 12 + 16);
}

#[test]
fn empty_data_round_trips() {
    let secret = generate_encryption_secret();
    let encrypted = encrypt_data(b"", &secret).unwrap();
    assert_eq!(decrypt_data(&encrypted, &secret).unwrap(), Vec::<u8>::new());
}

#[test]
fn too_short_ciphertext() {
    let v2 = generate_encryption_secret();
    assert_eq!(decrypt_data(&[0u8; 24], &v2).err(), Some(EncryptionError::CiphertextTooShort));
    let legacy = generate_legacy_secret();
    assert_eq!(decrypt_data(&[0u8; 12], &legacy).err(), Some(EncryptionError::CiphertextTooShort));
    assert_eq!(decrypt_data(&[0u8; 13], &legacy).err(), Some(EncryptionError::Decryption));
}

#[test]
fn encrypt_with_invalid_secret() {
    assert_eq!(encrypt_data(b"x", "no delimiter").err(), Some(EncryptionError::InvalidSecretFormat));
    assert_eq!(encrypt_text(b"x", "a$b$c").err(), Some(EncryptionError::InvalidSecretFormat));
}

#[test]
fn decrypt_text_errors() {
    let secret = generate_encryption_secret();
    assert_eq!(decrypt_text(b"not base64!", &secret).err(), Some(EncryptionError::InvalidBase64));
    let encrypted = encrypt_data(&[0xff, 0xfe], &secret).unwrap();
    let text = STANDARD.encode(&encrypted);
    assert_eq!(decrypt_text(text.as_bytes(), &secret).err(), Some(EncryptionError::InvalidUtf8));
}

#[test]
fn text_round_trip_non_ascii() {
    let secret = generate_legacy_secret();
    let text = "héllo wörld ✓";
    let encrypted = encrypt_text(text.as_bytes(), &secret).unwrap();
    assert!(STANDARD.decode(&encrypted).is_ok());
    assert_eq!(decrypt_text(encrypted.as_bytes(), &secret).unwrap(), text);
}

#[test]
fn pbkdf2_key_matches_crate() {
    let salt = [7u8; 16];
    let key = derive_key_pbkdf2(b"passphrase", &salt).unwrap();
    let mut expected = [0u8; 32];
    pbkdf2::pbkdf2::<pbkdf2::hmac::Hmac<sha2::Sha256>>(b"passphrase", &salt, 1000, &mut expected).unwrap();
    assert_eq!(key, expected.to_vec());
}

#[test]
fn argon2_key_matches_crate() {
    let salt = [9u8; 16];
    let key = derive_key_argon2id(b"passphrase", &salt).unwrap();
    let params = argon2::Params::new(19 * 1024, 2, 1, Some(32)).unwrap();
    let mut expected = [0u8; 32];
    argon2::Argon2::new(argon2::Algorithm::Argon2id, argon2::Version::V0x13, params)
        .hash_password_into(b"passphrase", &salt, &mut expected)
        .unwrap();
    assert_eq!(key, expected.to_vec());
    assert_ne!(key, derive_key_pbkdf2(b"passphrase", &salt).unwrap());
}

#[test]
fn seal_and_open_with_fixed_nonce() {
    let key = [3u8; 32];
    let data = b"attack at dawn";
    let nonce = [5u8; 24];
    let sealed = seal(SecretVersion::V2, &key, &nonce, data).unwrap();
    assert_eq!(&sealed[..24], &nonce);
    assert_eq!(sealed.len(), 24 + data.len() + 16);
    assert_ne!(&sealed[24..24 + data.len()], &data[..]);
    assert_eq!(open(SecretVersion::V2, &key, &sealed).unwrap(), data.to_vec());
    assert_eq!(open(SecretVersion::V2, &[4u8; 32], &sealed).err(), Some(EncryptionError::Decryption));

    let nonce = [6u8; 12];
    let sealed = seal(SecretVersion::Legacy, &key, &nonce, data).unwrap();
    assert_eq!(&sealed[..12], &nonce);
    assert_ne!(&sealed[12..12 + data.len()], &data[..]);
    assert_eq!(open(SecretVersion::Legacy, &key, &sealed).unwrap(), data.to_vec());
}

#[test]
fn decrypted_length_and_text_shape() {
    let secret = generate_encryption_secret();
    assert_eq!(secret.len(), 58);
    let salt_text = secret.rsplit('$').next().unwrap();
    assert_eq!(salt_text.len(), 24);
    assert!(salt_text.ends_with("=="));
    let encrypted = encrypt_data(b"twelve bytes", &secret).unwrap();
    assert_eq!(decrypt_data(&encrypted, &secret).unwrap().len() + 40, encrypted.len());
    let text = encrypt_text(b"hello", &secret).unwrap();
    assert_eq!(text.len() % 4, 0);
    assert_eq!(STANDARD.decode(&text).unwrap().len(), 5 + 40);
}
