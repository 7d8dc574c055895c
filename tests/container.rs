use minichacha::container::{header_bytes, HEADER_LEN, NONCE_LEN, PREFIX_LEN, SALT_LEN};
use minichacha::{decode_container, decrypt, encode_container, CryptError};

const HEADER: &[u8] = b"minichacha 001\n";

fn sample_container(body_len: usize) -> Vec<u8> {
    let salt: Vec<u8> = (0u8..12).collect();
    let nonce: Vec<u8> = (100u8..112).collect();
    let body: Vec<u8> = (0..body_len).map(|i| (i * 7 % 251) as u8).collect();
    encode_container(&salt, &nonce, &body)
}

#[test]
fn header_is_format_name_and_padded_version() {
    assert_eq!(header_bytes(), HEADER.to_vec());
    assert_eq!(HEADER_LEN, 15);
    assert_eq!(PREFIX_LEN, HEADER_LEN + SALT_LEN + NONCE_LEN);
}

#[test]
fn encode_lays_out_header_salt_nonce_body() {
    let c = sample_container(20);
    assert_eq!(c.len(), 39 + 20);
    assert_eq!(&c[0..15], HEADER);
    assert_eq!(&c[15..27], &(0u8..12).collect::<Vec<u8>>()[..]);
    assert_eq!(&c[27..39], &(100u8..112).collect::<Vec<u8>>()[..]);
    assert_eq!(c[39], 0);
    assert_eq!(c[40], 7);
}

#[test]
fn decode_returns_the_encoded_fields() {
    let c = sample_container(5);
    let parts = decode_container(&c).unwrap();
    assert_eq!(parts.salt, (0u8..12).collect::<Vec<u8>>());
    assert_eq!(parts.nonce, (100u8..112).collect::<Vec<u8>>());
    assert_eq!(parts.body, vec![0, 7, 14, 21, 28]);
}

#[test]
fn decode_accepts_empty_body() {
    let c = sample_container(0);
    assert_eq!(c.len(), 39);
    let parts = decode_container(&c).unwrap();
    assert!(parts.body.is_empty());
}

#[test]
fn decode_rejects_short_input() {
    let c = sample_container(0);
    for len in [0usize, 1, 14, 15, 27, 38] {
        assert!(matches!(decode_container(&c[..len]), Err(CryptError::Format)));
    }
}

#[test]
fn decode_rejects_altered_header() {
    let c = sample_container(16);
    for i in 0..15 {
        let mut bad = c.clone();
        bad[i] ^= 0x01;
        assert!(matches!(decode_container(&bad), Err(CryptError::Format)));
    }
}

#[test]
fn decode_rejects_other_version() {
    let mut c = sample_container(16);
    c[13] = b'2';
    assert!(matches!(decode_container(&c), Err(CryptError::Format)));
}

#[test]
fn decrypt_checks_header_before_anything_else() {
    let mut c = sample_container(32);
    c[0] = b'M';
    assert_eq!(decrypt(&c, "any passphrase"), Err(CryptError::Format));
    assert_eq!(decrypt(&c[..38], "any passphrase"), Err(CryptError::Format));
    assert_eq!(decrypt(b"", ""), Err(CryptError::Format));
}

#[test]
fn framed_container_with_empty_body_fails_authentication() {
    let mut c = HEADER.to_vec();
    c.extend_from_slice(&[0u8; 24]);
    assert_eq!(c.len(), 39);
    assert_eq!(decrypt(&c, "pw"), Err(CryptError::Authentication));
}
