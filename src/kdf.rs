use vstd::prelude::*;

use pbkdf2::pbkdf2_hmac_array;
use sha2::Sha256;

verus! {

/// Iterations of PBKDF2, chosen to make each passphrase guess expensive.
pub const PBKDF2_ROUNDS: u32 = 600_000;

/// Length of a derived key in bytes.
pub const KEY_LEN: usize = 32;

/// The 32 bytes that PBKDF2 with HMAC-SHA256 derives from `password`, `salt`
/// and `rounds`.
pub uninterp spec fn pbkdf2_hmac_sha256_of(password: Seq<u8>, salt: Seq<u8>, rounds: u32) -> Seq<u8>;

/// The key that `passphrase` and `salt` derive.
pub open spec fn key_of(passphrase: Seq<u8>, salt: Seq<u8>) -> Seq<u8> {
    pbkdf2_hmac_sha256_of(passphrase, salt, PBKDF2_ROUNDS)
}

/// Relies on `pbkdf2::pbkdf2_hmac_array::<Sha256, 32>`: it fills 32 bytes that
/// depend on the password, the salt and the round count alone, and it does not
/// fail for HMAC, which takes keys of any length.
#[verifier::external_body]
fn pbkdf2_hmac_sha256(password: &[u8], salt: &[u8], rounds: u32) -> (r: Vec<u8>)
    ensures
        r@ == pbkdf2_hmac_sha256_of(password@, salt@, rounds),
        r@.len() == KEY_LEN,
{
    pbkdf2_hmac_array::<Sha256, 32>(password, salt, rounds).to_vec()
}

/// Derives the symmetric key for `passphrase` and `salt`.
///
/// Deterministic: the same passphrase and salt always give the same key.
pub fn derive_key(passphrase: &[u8], salt: &[u8]) -> (r: Vec<u8>)
    ensures
        r@ == key_of(passphrase@, salt@),
        r@.len() == KEY_LEN,
{
    pbkdf2_hmac_sha256(passphrase, salt, PBKDF2_ROUNDS)
}

} // verus!
