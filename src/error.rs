use vstd::prelude::*;

verus! {

/// What can go wrong while sealing or opening a container.
///
/// A wrong passphrase and tampered data deliberately give the same error, so
/// that a caller cannot learn which of the two happened.
#[derive(Debug, Clone, Copy, PartialEq, Eq, Structural)]
pub enum CryptError {
    /// The input is shorter than a container's fixed part, or its header is
    /// not the expected format name and version.
    Format,
    /// The authentication tag did not verify: wrong passphrase or altered bytes.
    Authentication,
    /// The plaintext is longer than the cipher can seal under one nonce.
    PlaintextTooLong,
    /// The operating system's secure random source could not supply a salt
    /// or a nonce.
    RandomSourceUnavailable,
}

} // verus!
