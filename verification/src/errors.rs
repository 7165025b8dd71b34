//! Error kinds reported by the wallet core. Every fallible core operation
//! returns one of these; malformed input data never panics.

use vstd::prelude::*;

verus! {

/// The distinct failure kinds of the wallet core.
#[derive(Clone, Copy, Debug, PartialEq, Eq)]
pub enum WalletError {
    /// A string that should be hexadecimal holds a non-hex character or has
    /// an odd length.
    InvalidHexEncoding,
    /// A key was supplied with a length other than the required one.
    InvalidKeyLength,
    /// A 32-byte value is not a usable secret scalar (zero or not below the
    /// curve order).
    InvalidSecretKey,
    /// An address has a malformed delimiter or a payload that is not base58.
    InvalidAddressStructure,
    /// An address decoded, but its trailing 4 checksum bytes do not match
    /// the double-SHA-256 of its payload.
    ChecksumMismatch,
    /// A signing request named an input index at or past the input count.
    IndexOutOfRange,
    /// An output address failed validation before being admitted.
    InvalidOutputAddress,
    /// The operating system's entropy source failed to supply random bytes.
    EntropySourceUnavailable,
}

impl WalletError {
    /// A short human-readable description of the error kind.
    pub fn message(&self) -> (r: &'static str)
        ensures
            r@.len() > 0,
            match self {
                WalletError::InvalidHexEncoding => r@ == "invalid hex encoding"@,
                WalletError::InvalidKeyLength => r@ == "invalid key length"@,
                WalletError::InvalidSecretKey => r@ == "invalid secret key"@,
                WalletError::InvalidAddressStructure => r@ == "invalid address structure"@,
                WalletError::ChecksumMismatch => r@ == "checksum mismatch"@,
                WalletError::IndexOutOfRange => r@ == "input index out of range"@,
                WalletError::InvalidOutputAddress => r@ == "invalid output address"@,
                WalletError::EntropySourceUnavailable => r@ == "entropy source unavailable"@,
            },
    {
        proof {
            reveal_strlit("invalid hex encoding");
            reveal_strlit("invalid key length");
            reveal_strlit("invalid secret key");
            reveal_strlit("invalid address structure");
            reveal_strlit("checksum mismatch");
            reveal_strlit("input index out of range");
            reveal_strlit("invalid output address");
            reveal_strlit("entropy source unavailable");
        }
        match self {
            WalletError::InvalidHexEncoding => "invalid hex encoding",
            WalletError::InvalidKeyLength => "invalid key length",
            WalletError::InvalidSecretKey => "invalid secret key",
            WalletError::InvalidAddressStructure => "invalid address structure",
            WalletError::ChecksumMismatch => "checksum mismatch",
            WalletError::IndexOutOfRange => "input index out of range",
            WalletError::InvalidOutputAddress => "invalid output address",
            WalletError::EntropySourceUnavailable => "entropy source unavailable",
        }
    }
}

} // verus!
