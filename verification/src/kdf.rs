//! Key derivation through the `argon2` and `pbkdf2` crates, behind trusted items.

use argon2::{Algorithm, Argon2, Params, Version};
use pbkdf2::hmac::Hmac;
use pbkdf2::pbkdf2;
use sha2::Sha256;
use vstd::prelude::*;

verus! {

/// The bytes that Argon2id (version 0x13) writes for the given inputs and parameters.
pub uninterp spec fn argon2id_v13_output(
    password: Seq<u8>,
    salt: Seq<u8>,
    m_cost: u32,
    t_cost: u32,
    p_cost: u32,
    output_len: usize,
) -> Seq<u8>;

/// The bytes that PBKDF2 with HMAC-SHA256 writes for the given inputs.
pub uninterp spec fn pbkdf2_hmac_sha256_output(
    password: Seq<u8>,
    salt: Seq<u8>,
    rounds: u32,
    output_len: usize,
) -> Seq<u8>;

/// The inputs on which `argon2` 0.5 derives a key: the checks of `Params::new` and of
/// `Argon2::hash_password_into` (with an output buffer of exactly `output_len` bytes).
pub open spec fn argon2_accepts(
    password_len: nat,
    salt_len: nat,
    m_cost: u32,
    t_cost: u32,
    p_cost: u32,
    output_len: usize,
) -> bool {
    &&& m_cost >= 8
    &&& m_cost >= 8 * p_cost
    &&& t_cost >= 1
    &&& 1 <= p_cost <= 0xFF_FFFF
    &&& 4 <= output_len <= 0xFFFF_FFFF
    &&& password_len <= 0xFFFF_FFFF
    &&& 8 <= salt_len <= 0xFFFF_FFFF
}

/// Calls `argon2::Params::new(m_cost, t_cost, p_cost, Some(output_len))`, builds
/// `Argon2::new(Algorithm::Argon2id, Version::V0x13, params)` and calls its
/// `hash_password_into` with a buffer of `output_len` bytes; any error is read as `None`.
/// The contract claims what the crate's checks show: a key comes back exactly when
/// `argon2_accepts` holds, it has `output_len` bytes, and it is named by
/// `argon2id_v13_output`. `p_cost` is bounded because `Params::new` computes `p_cost * 8`.
#[verifier::external_body]
pub(crate) fn argon2id_hash(
    password: &[u8],
    salt: &[u8],
    m_cost: u32,
    t_cost: u32,
    p_cost: u32,
    output_len: usize,
) -> (key: Option<Vec<u8>>)
    requires
        p_cost <= 0xFF_FFFF,
    ensures
        key is Some <==> argon2_accepts(password@.len(), salt@.len(), m_cost, t_cost, p_cost, output_len),
        key matches Some(k) ==> k@ == argon2id_v13_output(password@, salt@, m_cost, t_cost, p_cost, output_len)
            && k@.len() == output_len,
{
    let params = Params::new(m_cost, t_cost, p_cost, Some(output_len)).ok()?;
    let mut key = vec![0u8; output_len];
    Argon2::new(Algorithm::Argon2id, Version::V0x13, params)
        .hash_password_into(password, salt, &mut key)
        .ok()?;
    Some(key)
}

/// Calls `pbkdf2::pbkdf2::<Hmac<Sha256>>` into a buffer of `output_len` bytes; an error is
/// read as `None`. The crate documents that HMAC takes keys of any length, so the call
/// never fails; the key is named by `pbkdf2_hmac_sha256_output`. The crate counts 32-byte
/// blocks in a `u32` and adds one to the count, which `requires` keeps from overflowing.
#[verifier::external_body]
pub(crate) fn pbkdf2_hmac_sha256(
    password: &[u8],
    salt: &[u8],
    rounds: u32,
    output_len: usize,
) -> (key: Option<Vec<u8>>)
    requires
        output_len <= 32 * 0xFFFF_FFFF,
    ensures
        key is Some,
        key matches Some(k) ==> k@ == pbkdf2_hmac_sha256_output(password@, salt@, rounds, output_len)
            && k@.len() == output_len,
{
    let mut key = vec![0u8; output_len];
    pbkdf2::<Hmac<Sha256>>(password, salt, rounds, &mut key).ok()?;
    Some(key)
}

} // verus!
