use minichacha::aead::{open, seal};
use minichacha::{decrypt, derive_key, encrypt, encrypt_with, CryptError};

const HEADER: &[u8] = b"minichacha 001\n";

#[test]
fn hello_world_round_trip() {
    let c = encrypt(b"hello world", "correct horse battery staple").unwrap();
    assert_eq!(c.len(), 66);
    assert_eq!(&c[..15], HEADER);
    assert_eq!(decrypt(&c, "correct horse battery staple").unwrap(), b"hello world".to_vec());
}

#[test]
fn hello_world_wrong_passphrase_fails() {
    let salt = [1u8; 12];
    let nonce = [2u8; 12];
    let c = encrypt_with(b"hello world", "correct horse battery staple", &salt, &nonce).unwrap();
    assert_eq!(c.len(), 66);
    assert_eq!(decrypt(&c, "wrong"), Err(CryptError::Authentication));
}

#[test]
fn empty_plaintext_round_trip() {
    let c = encrypt(b"", "pw").unwrap();
    assert_eq!(c.len(), 55);
    assert_eq!(&c[..15], HEADER);
    assert_eq!(decrypt(&c, "pw").unwrap(), Vec::<u8>::new());
}

#[test]
fn empty_passphrase_round_trip() {
    let plaintext: Vec<u8> = (0..=255u8).collect();
    let c = encrypt(&plaintext, "").unwrap();
    assert_eq!(c.len(), 39 + 256 + 16);
    assert_eq!(decrypt(&c, "").unwrap(), plaintext);
}

#[test]
fn encrypt_with_frames_given_salt_and_nonce() {
    let salt = [7u8; 12];
    let nonce = [9u8; 12];
    let c = encrypt_with(b"abc", "pw", &salt, &nonce).unwrap();
    assert_eq!(&c[..15], HEADER);
    assert_eq!(&c[15..27], &salt);
    assert_eq!(&c[27..39], &nonce);
    let key = derive_key(b"pw", &salt);
    assert_eq!(c[39..].to_vec(), seal(&key, &nonce, b"abc").unwrap());
}

fn tamper_fails(index_from_start: Option<usize>, index_from_end: Option<usize>) {
    let salt = [3u8; 12];
    let nonce = [4u8; 12];
    let mut c = encrypt_with(b"attack at dawn", "pw", &salt, &nonce).unwrap();
    let i = match (index_from_start, index_from_end) {
        (Some(i), _) => i,
        (None, Some(j)) => c.len() - 1 - j,
        (None, None) => unreachable!(),
    };
    c[i] ^= 0x10;
    assert_eq!(decrypt(&c, "pw"), Err(CryptError::Authentication));
}

#[test]
fn flipped_salt_bit_fails() {
    tamper_fails(Some(20), None);
}

#[test]
fn flipped_nonce_bit_fails() {
    tamper_fails(Some(30), None);
}

#[test]
fn flipped_ciphertext_bit_fails() {
    tamper_fails(Some(39), None);
}

#[test]
fn flipped_tag_bit_fails() {
    tamper_fails(None, Some(0));
}

#[test]
fn truncated_body_fails_authentication() {
    let salt = [5u8; 12];
    let nonce = [6u8; 12];
    let c = encrypt_with(b"attack at dawn", "pw", &salt, &nonce).unwrap();
    assert_eq!(decrypt(&c[..c.len() - 1], "pw"), Err(CryptError::Authentication));
}

#[test]
fn two_encryptions_differ() {
    let a = encrypt(b"same text", "same pw").unwrap();
    let b = encrypt(b"same text", "same pw").unwrap();
    assert_ne!(a, b);
    assert_ne!(&a[15..27], &b[15..27]);
    assert_ne!(&a[27..39], &b[27..39]);
}

#[test]
fn key_derivation_is_deterministic() {
    let salt = [8u8; 12];
    let k1 = derive_key(b"passphrase", &salt);
    let k2 = derive_key(b"passphrase", &salt);
    assert_eq!(k1.len(), 32);
    assert_eq!(k1, k2);
}

#[test]
fn key_depends_on_salt() {
    let k1 = derive_key(b"passphrase", &[0u8; 12]);
    let k2 = derive_key(b"passphrase", &[1u8; 12]);
    assert_ne!(k1, k2);
    assert_ne!(k1, b"passphrase".to_vec());
}

#[test]
fn seal_then_open_with_fixed_key() {
    let key = [0x42u8; 32];
    let nonce = [0u8; 12];
    let plaintext = b"sixteen byte msg".to_vec();
    let c = seal(&key, &nonce, &plaintext).unwrap();
    assert_eq!(c.len(), plaintext.len() + 16);
    assert_ne!(c[..16].to_vec(), plaintext);
    assert_eq!(open(&key, &nonce, &c).unwrap(), plaintext);
}

#[test]
fn open_rejects_wrong_key_nonce_and_short_input() {
    let key = [0x42u8; 32];
    let nonce = [0u8; 12];
    let c = seal(&key, &nonce, b"data").unwrap();
    assert_eq!(open(&[0x43u8; 32], &nonce, &c), Err(CryptError::Authentication));
    assert_eq!(open(&key, &[1u8; 12], &c), Err(CryptError::Authentication));
    assert_eq!(open(&key, &nonce, &c[..15]), Err(CryptError::Authentication));
    assert_eq!(open(&key, &nonce, b""), Err(CryptError::Authentication));
}

#[test]
fn decrypted_plaintext_is_55_bytes_shorter() {
    let plaintext = vec![0xabu8; 100];
    let c = encrypt(&plaintext, "pw").unwrap();
    let p = decrypt(&c, "pw").unwrap();
    assert_eq!(p.len() + 55, c.len());
    assert_eq!(p, plaintext);
}

#[test]
fn open_of_tag_only_input_fails() {
    let key = [0x11u8; 32];
    let nonce = [0x22u8; 12];
    assert_eq!(open(&key, &nonce, &[0u8; 16]), Err(CryptError::Authentication));
    let c = seal(&key, &nonce, b"").unwrap();
    assert_eq!(c.len(), 16);
    assert_eq!(open(&key, &nonce, &c).unwrap(), Vec::<u8>::new());
}
