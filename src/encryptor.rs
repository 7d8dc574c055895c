use vstd::prelude::*;
use vstd::string::StringSliceAdditionalSpecFns;

use crate::aead::{
    open, random_bytes, seal, sealed, MAX_PLAINTEXT_LEN, TAG_LEN,
};
use crate::container::{
    body_of, container_of, decode_container, encode_container, is_framed, lemma_decode_encode,
    nonce_of, salt_of, NONCE_LEN, PREFIX_LEN, SALT_LEN,
};
use crate::error::CryptError;
use crate::kdf::{derive_key, key_of};

verus! {

/// The container that encrypting `plaintext` under `passphrase` makes with the
/// given salt and nonce.
pub open spec fn encryption_of(plaintext: Seq<u8>, passphrase: Seq<u8>, salt: Seq<u8>, nonce: Seq<u8>) -> Seq<u8> {
    container_of(salt, nonce, sealed(key_of(passphrase, salt), nonce, plaintext))
}

/// Whether `plaintext` is what the body of the framed container `c` seals
/// under the key that `passphrase` derives with the container's salt.
pub open spec fn opens_to(c: Seq<u8>, passphrase: Seq<u8>, plaintext: Seq<u8>) -> bool {
    plaintext.len() <= MAX_PLAINTEXT_LEN
        && sealed(key_of(passphrase, salt_of(c)), nonce_of(c), plaintext) == body_of(c)
}

/// Round trip: the container that encrypting `plaintext` under `passphrase`
/// makes, with any salt and nonce of the right lengths, passes the header
/// check, and its body opens to `plaintext` under the same passphrase.
pub proof fn lemma_round_trip(plaintext: Seq<u8>, passphrase: Seq<u8>, salt: Seq<u8>, nonce: Seq<u8>)
    requires
        plaintext.len() <= MAX_PLAINTEXT_LEN,
        salt.len() == SALT_LEN,
        nonce.len() == NONCE_LEN,
    ensures
        is_framed(encryption_of(plaintext, passphrase, salt, nonce)),
        salt_of(encryption_of(plaintext, passphrase, salt, nonce)) == salt,
        nonce_of(encryption_of(plaintext, passphrase, salt, nonce)) == nonce,
        opens_to(encryption_of(plaintext, passphrase, salt, nonce), passphrase, plaintext),
{
    let body = sealed(key_of(passphrase, salt), nonce, plaintext);
    lemma_decode_encode(salt, nonce, body);
}

/// Encrypts `plaintext` under `passphrase` with a given salt and nonce.
///
/// The salt and nonce must be fresh random values for every call; `encrypt`
/// draws them.
pub fn encrypt_with(plaintext: &[u8], passphrase: &str, salt: &[u8], nonce: &[u8]) -> (r: Result<Vec<u8>, CryptError>)
    requires
        salt@.len() == SALT_LEN,
        nonce@.len() == NONCE_LEN,
    ensures
        match r {
            Ok(c) => plaintext@.len() <= MAX_PLAINTEXT_LEN
                && c@ == encryption_of(plaintext@, passphrase.spec_bytes(), salt@, nonce@)
                && c@.len() == PREFIX_LEN + plaintext@.len() + TAG_LEN,
            Err(e) => plaintext@.len() > MAX_PLAINTEXT_LEN && e == CryptError::PlaintextTooLong,
        },
{
    let key = derive_key(passphrase.as_bytes(), salt);
    let body = seal(key.as_slice(), nonce, plaintext)?;
    let c = encode_container(salt, nonce, body.as_slice());
    proof {
        lemma_decode_encode(salt@, nonce@, body@);
    }
    Ok(c)
}

/// Encrypts `plaintext` under `passphrase` into a container, with a salt and a
/// nonce freshly drawn from the operating system's secure random source.
///
/// Fails with `RandomSourceUnavailable` where that source fails, and with
/// `PlaintextTooLong` exactly when it does not and the plaintext is over the
/// cipher's limit.
pub fn encrypt(plaintext: &[u8], passphrase: &str) -> (r: Result<Vec<u8>, CryptError>)
    ensures
        match r {
            Ok(c) => plaintext@.len() <= MAX_PLAINTEXT_LEN
                && c@.len() == PREFIX_LEN + plaintext@.len() + TAG_LEN
                && exists|salt: Seq<u8>, nonce: Seq<u8>|
                    salt.len() == SALT_LEN && nonce.len() == NONCE_LEN
                        && c@ == #[trigger] encryption_of(plaintext@, passphrase.spec_bytes(), salt, nonce),
            Err(e) => e == CryptError::RandomSourceUnavailable
                || (plaintext@.len() > MAX_PLAINTEXT_LEN && e == CryptError::PlaintextTooLong),
        },
        plaintext@.len() > MAX_PLAINTEXT_LEN ==> r is Err,
{
    let salt = match random_bytes(SALT_LEN) {
        Some(s) => s,
        None => return Err(CryptError::RandomSourceUnavailable),
    };
    let nonce = match random_bytes(NONCE_LEN) {
        Some(n) => n,
        None => return Err(CryptError::RandomSourceUnavailable),
    };
    encrypt_with(plaintext, passphrase, salt.as_slice(), nonce.as_slice())
}

/// Decrypts a container with `passphrase`.
///
/// The header and length are checked before any key is derived: a container
/// that is too short or has another header fails with `Format` whatever the
/// passphrase. Otherwise the plaintext is returned only if the tag verifies;
/// a wrong passphrase and altered bytes both give `Authentication`.
pub fn decrypt(container: &[u8], passphrase: &str) -> (r: Result<Vec<u8>, CryptError>)
    ensures
        match r {
            Ok(p) => is_framed(container@) && opens_to(container@, passphrase.spec_bytes(), p@)
                && p@.len() + PREFIX_LEN + TAG_LEN == container@.len(),
            Err(e) => if is_framed(container@) {
                e == CryptError::Authentication
                    && forall|p: Seq<u8>| !#[trigger] opens_to(container@, passphrase.spec_bytes(), p)
            } else {
                e == CryptError::Format
            },
        },
        forall|p: Seq<u8>, salt: Seq<u8>, nonce: Seq<u8>|
            salt.len() == SALT_LEN && nonce.len() == NONCE_LEN && p.len() <= MAX_PLAINTEXT_LEN
                && container@ == #[trigger] encryption_of(p, passphrase.spec_bytes(), salt, nonce)
                ==> (r matches Ok(q) && q@ == p),
{
    let parts = match decode_container(container) {
        Ok(parts) => parts,
        Err(e) => {
            proof {
                assert forall|p: Seq<u8>, salt: Seq<u8>, nonce: Seq<u8>|
                    salt.len() == SALT_LEN && nonce.len() == NONCE_LEN
                        && container@ == #[trigger] encryption_of(p, passphrase.spec_bytes(), salt, nonce)
                    implies false by {
                    let k = key_of(passphrase.spec_bytes(), salt);
                    lemma_decode_encode(salt, nonce, sealed(k, nonce, p));
                }
            }
            return Err(e);
        },
    };
    let key = derive_key(passphrase.as_bytes(), parts.salt.as_slice());
    let r = open(key.as_slice(), parts.nonce.as_slice(), parts.body.as_slice());
    proof {
        assert forall|p: Seq<u8>, salt: Seq<u8>, nonce: Seq<u8>|
            salt.len() == SALT_LEN && nonce.len() == NONCE_LEN && p.len() <= MAX_PLAINTEXT_LEN
                && container@ == #[trigger] encryption_of(p, passphrase.spec_bytes(), salt, nonce)
            implies (r matches Ok(q) && q@ == p) by {
            lemma_round_trip(p, passphrase.spec_bytes(), salt, nonce);
        }
        if r is Err {
            assert forall|p: Seq<u8>| !#[trigger] opens_to(container@, passphrase.spec_bytes(), p) by {
                if opens_to(container@, passphrase.spec_bytes(), p) {
                    assert(sealed(key@, parts.nonce@, p) == parts.body@);
                }
            }
        }
    }
    r
}

} // verus!
