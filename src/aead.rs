use vstd::prelude::*;

use chacha20poly1305::aead::rand_core::RngCore;
use chacha20poly1305::aead::{Aead, OsRng};
use chacha20poly1305::{ChaCha20Poly1305, Key, KeyInit, Nonce};

use crate::container::NONCE_LEN;
use crate::error::CryptError;
use crate::kdf::KEY_LEN;

verus! {

/// Length of the authentication tag appended to each ciphertext.
pub const TAG_LEN: usize = 16;

/// The longest plaintext that can be sealed under one nonce: block 0 of the
/// ChaCha20 keystream keys Poly1305, and the 32-bit block counter leaves
/// `u32::MAX - 1` blocks of 64 bytes for the message.
pub const MAX_PLAINTEXT_LEN: u64 = 274_877_906_816;

#[verifier::external_type_specification]
#[verifier::external_body]
pub struct ExAeadError(chacha20poly1305::aead::Error);

/// The bytes that ChaCha20-Poly1305 makes of `plaintext` under `key` and
/// `nonce`, with no associated data.
pub uninterp spec fn chacha20poly1305_seal_of(key: Seq<u8>, nonce: Seq<u8>, plaintext: Seq<u8>) -> Seq<u8>;

/// The sealed form of `plaintext`: as many ciphertext bytes as the plaintext
/// has, then the tag, each byte as the cipher computes it.
pub open spec fn sealed(key: Seq<u8>, nonce: Seq<u8>, plaintext: Seq<u8>) -> Seq<u8> {
    Seq::new(
        (plaintext.len() + TAG_LEN) as nat,
        |i: int| chacha20poly1305_seal_of(key, nonce, plaintext)[i],
    )
}

/// Relies on `ChaCha20Poly1305::new` and `Aead::encrypt`: within the length
/// limit it succeeds, and returns the plaintext's length plus a 16-byte tag,
/// determined by key, nonce and plaintext.
#[verifier::external_body]
fn chacha20poly1305_encrypt(key: &[u8], nonce: &[u8], plaintext: &[u8]) -> (r: Result<Vec<u8>, chacha20poly1305::aead::Error>)
    requires
        key@.len() == KEY_LEN,
        nonce@.len() == NONCE_LEN,
        plaintext@.len() <= MAX_PLAINTEXT_LEN,
    ensures
        r is Ok && r->Ok_0@ == chacha20poly1305_seal_of(key@, nonce@, plaintext@),
        r is Ok && r->Ok_0@ == sealed(key@, nonce@, plaintext@),
{
    ChaCha20Poly1305::new(Key::from_slice(key)).encrypt(Nonce::from_slice(nonce), plaintext)
}

/// Relies on `ChaCha20Poly1305::new` and `Aead::decrypt`: the tag is verified
/// before anything is decrypted, so it succeeds exactly on what
/// `Aead::encrypt` makes under the same key and nonce, and then returns the
/// plaintext that was sealed, 16 bytes shorter than the input.
#[verifier::external_body]
fn chacha20poly1305_decrypt(key: &[u8], nonce: &[u8], ciphertext: &[u8]) -> (r: Result<Vec<u8>, chacha20poly1305::aead::Error>)
    requires
        key@.len() == KEY_LEN,
        nonce@.len() == NONCE_LEN,
        ciphertext@.len() <= MAX_PLAINTEXT_LEN + TAG_LEN,
    ensures
        r is Ok ==> r->Ok_0@.len() + TAG_LEN == ciphertext@.len()
            && sealed(key@, nonce@, r->Ok_0@) == ciphertext@,
        forall|p: Seq<u8>|
            #[trigger] sealed(key@, nonce@, p) == ciphertext@ ==> (r is Ok && r->Ok_0@ == p),
{
    ChaCha20Poly1305::new(Key::from_slice(key)).decrypt(Nonce::from_slice(nonce), ciphertext)
}

/// Relies on `RngCore::try_fill_bytes` of `OsRng`: on success, `len` bytes
/// drawn from the operating system's cryptographically secure random source;
/// `None` where that source fails.
#[verifier::external_body]
pub(crate) fn random_bytes(len: usize) -> (r: Option<Vec<u8>>)
    ensures
        r matches Some(v) ==> v@.len() == len,
{
    let mut buf = vec![0u8; len];
    match OsRng.try_fill_bytes(&mut buf) {
        Ok(()) => Some(buf),
        Err(_) => None,
    }
}

/// Seals `plaintext` under `key` and `nonce`: ciphertext followed by the tag.
pub fn seal(key: &[u8], nonce: &[u8], plaintext: &[u8]) -> (r: Result<Vec<u8>, CryptError>)
    requires
        key@.len() == KEY_LEN,
        nonce@.len() == NONCE_LEN,
    ensures
        match r {
            Ok(c) => plaintext@.len() <= MAX_PLAINTEXT_LEN
                && c@ == sealed(key@, nonce@, plaintext@)
                && c@.len() == plaintext@.len() + TAG_LEN,
            Err(e) => plaintext@.len() > MAX_PLAINTEXT_LEN && e == CryptError::PlaintextTooLong,
        },
{
    if plaintext.len() as u64 > MAX_PLAINTEXT_LEN {
        return Err(CryptError::PlaintextTooLong);
    }
    match chacha20poly1305_encrypt(key, nonce, plaintext) {
        Ok(c) => Ok(c),
        Err(_) => Err(CryptError::PlaintextTooLong),
    }
}

/// Verifies the tag of `ciphertext` under `key` and `nonce` and, only if it
/// holds, returns the plaintext.
///
/// A wrong key and altered bytes give the same `Authentication` error.
pub fn open(key: &[u8], nonce: &[u8], ciphertext: &[u8]) -> (r: Result<Vec<u8>, CryptError>)
    requires
        key@.len() == KEY_LEN,
        nonce@.len() == NONCE_LEN,
    ensures
        match r {
            Ok(p) => p@.len() <= MAX_PLAINTEXT_LEN
                && p@.len() + TAG_LEN == ciphertext@.len()
                && sealed(key@, nonce@, p@) == ciphertext@,
            Err(e) => e == CryptError::Authentication
                && forall|p: Seq<u8>| p.len() <= MAX_PLAINTEXT_LEN
                    ==> #[trigger] sealed(key@, nonce@, p) != ciphertext@,
        },
        forall|p: Seq<u8>|
            p.len() <= MAX_PLAINTEXT_LEN && #[trigger] sealed(key@, nonce@, p) == ciphertext@
                ==> (r matches Ok(q) && q@ == p),
{
    if ciphertext.len() as u64 > MAX_PLAINTEXT_LEN + TAG_LEN as u64 {
        return Err(CryptError::Authentication);
    }
    match chacha20poly1305_decrypt(key, nonce, ciphertext) {
        Ok(p) => Ok(p),
        Err(_) => Err(CryptError::Authentication),
    }
}

} // verus!
