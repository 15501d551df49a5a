//! The library's error kinds.
use vstd::prelude::*;

verus! {

/// What went wrong in a fallible operation of this library.
#[derive(Debug, Clone, Copy, PartialEq, Eq, Structural)]
pub enum Error {
    /// Malformed hex text.
    InvalidHex,
    /// A point that does not decode, or has the wrong size.
    InvalidPublicKey,
    /// A secret scalar that is zero, out of range or of the wrong size.
    InvalidPrivateKey,
    /// Text that is not of the form `sip:<chain>:<spending>:<viewing>`.
    InvalidStealthMetaAddress,
    /// A numeric bound not covered by scalar validity.
    ValueOutOfRange,
    /// A cryptographic precondition does not hold (wrong length, zero scalar).
    CryptoError,
    /// The authenticated encryption failed.
    EncryptionError,
    /// The authenticated decryption failed (wrong key, tampered data, bad nonce).
    DecryptionError,
    /// An unknown chain identifier.
    InvalidChainId,
    /// A verification step failed.
    VerificationFailed,
}

} // verus!
