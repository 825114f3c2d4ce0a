//! XChaCha20-Poly1305 and AES-256-GCM through the `chacha20poly1305` and `aes-gcm` crates,
//! behind trusted items. Both append a 16-byte tag to the encrypted message.

use aes_gcm::aead::generic_array::GenericArray;
use aes_gcm::aead::Aead;
use aes_gcm::{Aes256Gcm, KeyInit};
use chacha20poly1305::{XChaCha20Poly1305, XNonce};
use vstd::prelude::*;

use crate::base64_codec::opt_bytes;

verus! {

/// The length of the authentication tag of both ciphers.
pub const TAG_LENGTH: usize = 16;

/// What XChaCha20-Poly1305 encryption (no associated data) returns.
pub uninterp spec fn xchacha20poly1305_ciphertext(key: Seq<u8>, nonce: Seq<u8>, plaintext: Seq<u8>) -> Seq<u8>;

/// What XChaCha20-Poly1305 decryption (no associated data) returns: `None` where it fails.
pub uninterp spec fn xchacha20poly1305_plaintext(key: Seq<u8>, nonce: Seq<u8>, ciphertext: Seq<u8>) -> Option<Seq<u8>>;

/// What AES-256-GCM encryption (no associated data) returns.
pub uninterp spec fn aes256gcm_ciphertext(key: Seq<u8>, nonce: Seq<u8>, plaintext: Seq<u8>) -> Seq<u8>;

/// What AES-256-GCM decryption (no associated data) returns: `None` where it fails.
pub uninterp spec fn aes256gcm_plaintext(key: Seq<u8>, nonce: Seq<u8>, ciphertext: Seq<u8>) -> Option<Seq<u8>>;

/// The longest message whose keystream XChaCha20-Poly1305 can produce: block 0 keys the
/// MAC, so the 32-bit block counter leaves `u32::MAX - 1` blocks of 64 bytes.
pub open spec fn xchacha_keystream_fits(len: nat) -> bool {
    len <= 64 * 0xFFFF_FFFE
}

/// The message lengths that `chacha20poly1305` refuses outright: `u32::MAX` or more blocks.
pub open spec fn xchacha_refuses(len: nat) -> bool {
    len >= 64 * 0xFFFF_FFFF
}

/// Calls `Aead::encrypt` of `XChaCha20Poly1305::new(key)` with the given 24-byte nonce;
/// an error is read as `None`. The contract claims what the crates' source shows: a message
/// of `u32::MAX` or more 64-byte blocks is refused, and one that fits the keystream is
/// encrypted; the output is the message length plus the tag, is named by
/// `xchacha20poly1305_ciphertext`, and decrypts under the same key and nonce to the message.
/// Lengths in between make `apply_keystream` panic, as do other key or nonce lengths in
/// `from_slice` and an output buffer that does not fit: `requires` leaves them out.
#[verifier::external_body]
pub(crate) fn xchacha20poly1305_encrypt(key: &[u8], nonce: &[u8], plaintext: &[u8]) -> (ciphertext: Option<Vec<u8>>)
    requires
        key@.len() == 32,
        nonce@.len() == 24,
        plaintext@.len() + TAG_LENGTH <= usize::MAX,
        xchacha_keystream_fits(plaintext@.len()) || xchacha_refuses(plaintext@.len()),
    ensures
        ciphertext is Some <==> xchacha_keystream_fits(plaintext@.len()),
        ciphertext matches Some(c) ==> {
            &&& c@ == xchacha20poly1305_ciphertext(key@, nonce@, plaintext@)
            &&& c@.len() == plaintext@.len() + TAG_LENGTH
            &&& xchacha20poly1305_plaintext(key@, nonce@, c@) == Some(plaintext@)
        },
{
    XChaCha20Poly1305::new(GenericArray::from_slice(key)).encrypt(XNonce::from_slice(nonce), plaintext).ok()
}

/// Calls `Aead::decrypt` of `XChaCha20Poly1305::new(key)` with the given 24-byte nonce;
/// an error is read as `None`. The result is named by `xchacha20poly1305_plaintext`; as the
/// crates' source shows, the call succeeds only where the tag is the one that encrypting
/// the result under the same key and nonce gives, so the ciphertext is exactly that
/// encryption, and the plaintext is the ciphertext without its 16-byte tag. A message part
/// whose keystream does not fit (and that is not refused outright) makes `apply_keystream`
/// panic once the tag matches: `requires` leaves those lengths out.
#[verifier::external_body]
pub(crate) fn xchacha20poly1305_decrypt(key: &[u8], nonce: &[u8], ciphertext: &[u8]) -> (plaintext: Option<Vec<u8>>)
    requires
        key@.len() == 32,
        nonce@.len() == 24,
        ciphertext@.len() < TAG_LENGTH || xchacha_keystream_fits((ciphertext@.len() - TAG_LENGTH) as nat)
            || xchacha_refuses((ciphertext@.len() - TAG_LENGTH) as nat),
    ensures
        opt_bytes(plaintext) == xchacha20poly1305_plaintext(key@, nonce@, ciphertext@),
        plaintext matches Some(p) ==> p@.len() + TAG_LENGTH == ciphertext@.len()
            && ciphertext@ == xchacha20poly1305_ciphertext(key@, nonce@, p@),
{
    XChaCha20Poly1305::new(GenericArray::from_slice(key)).decrypt(XNonce::from_slice(nonce), ciphertext).ok()
}

/// Calls `Aead::encrypt` of `Aes256Gcm::new(key)` with the given 12-byte nonce; an error is
/// read as `None`. The contract claims what the crate's source shows: it refuses a message
/// longer than 2^36 bytes and nothing else; the output is the message length plus the
/// tag, is named by `aes256gcm_ciphertext`, and decrypts under the same key and nonce to
/// the message. `from_slice` panics on other key or nonce lengths, and the output buffer
/// must fit, which `requires` leaves out.
#[verifier::external_body]
pub(crate) fn aes256gcm_encrypt(key: &[u8], nonce: &[u8], plaintext: &[u8]) -> (ciphertext: Option<Vec<u8>>)
    requires
        key@.len() == 32,
        nonce@.len() == 12,
        plaintext@.len() + TAG_LENGTH <= usize::MAX,
    ensures
        ciphertext is Some <==> plaintext@.len() <= 0x10_0000_0000,
        ciphertext matches Some(c) ==> {
            &&& c@ == aes256gcm_ciphertext(key@, nonce@, plaintext@)
            &&& c@.len() == plaintext@.len() + TAG_LENGTH
            &&& aes256gcm_plaintext(key@, nonce@, c@) == Some(plaintext@)
        },
{
    Aes256Gcm::new(GenericArray::from_slice(key)).encrypt(GenericArray::from_slice(nonce), plaintext).ok()
}

/// Calls `Aead::decrypt` of `Aes256Gcm::new(key)` with the given 12-byte nonce; an error is
/// read as `None`. The result is named by `aes256gcm_plaintext`; as the crates' source
/// shows, the call succeeds only where the tag is the one that encrypting the result under
/// the same key and nonce gives, so the ciphertext is exactly that encryption, and the
/// plaintext is the ciphertext without its 16-byte tag.
#[verifier::external_body]
pub(crate) fn aes256gcm_decrypt(key: &[u8], nonce: &[u8], ciphertext: &[u8]) -> (plaintext: Option<Vec<u8>>)
    requires
        key@.len() == 32,
        nonce@.len() == 12,
    ensures
        opt_bytes(plaintext) == aes256gcm_plaintext(key@, nonce@, ciphertext@),
        plaintext matches Some(p) ==> p@.len() + TAG_LENGTH == ciphertext@.len()
            && ciphertext@ == aes256gcm_ciphertext(key@, nonce@, p@),
{
    Aes256Gcm::new(GenericArray::from_slice(key)).decrypt(GenericArray::from_slice(nonce), ciphertext).ok()
}

} // verus!
