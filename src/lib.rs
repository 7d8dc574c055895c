//! Passphrase-based file encryption: a PBKDF2-HMAC-SHA256 key, ChaCha20-Poly1305
//! sealing, and a self-describing container that frames salt, nonce and ciphertext.

pub mod aead;
pub mod container;
pub mod encryptor;
pub mod error;
pub mod kdf;

pub use aead::{open, seal};
pub use container::{decode_container, encode_container, ContainerParts};
pub use encryptor::{decrypt, encrypt, encrypt_with};
pub use error::CryptError;
pub use kdf::derive_key;
