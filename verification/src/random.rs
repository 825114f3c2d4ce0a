//! Randomness from the operating system through `rand::rngs::OsRng`, behind trusted items.
//! Nothing is named here: every outcome is possible.

use rand::distributions::Alphanumeric;
use rand::rngs::OsRng;
use rand::Rng;
use vstd::prelude::*;

verus! {

/// An ASCII letter or digit.
pub open spec fn is_alphanumeric_byte(b: u8) -> bool {
    (65 <= b && b <= 90) || (97 <= b && b <= 122) || (48 <= b && b <= 57)
}

/// Calls `Rng::fill` of `OsRng` on a zeroed buffer of `len` bytes. The contract claims
/// only the length: the bytes are random.
#[verifier::external_body]
pub(crate) fn random_bytes(len: usize) -> (bytes: Vec<u8>)
    ensures
        bytes@.len() == len,
{
    let mut bytes = vec![0u8; len];
    OsRng.fill(&mut bytes[..]);
    bytes
}

/// Calls `Rng::sample` of `OsRng` with the `Alphanumeric` distribution, which draws from
/// the 62 ASCII letters and digits. The contract claims only that the byte is one of them.
#[verifier::external_body]
pub(crate) fn random_alphanumeric() -> (b: u8)
    ensures
        is_alphanumeric_byte(b),
{
    OsRng.sample(Alphanumeric)
}

} // verus!
