//! Key pairs: a 32-byte secret scalar and the 33-byte compressed public
//! key derived from it. The public key is always rederived from the
//! secret, never accepted as independent input, and the pairing is a type
//! invariant every `KeyPair` carries.

use vstd::prelude::*;
use vstd::slice::slice_to_vec;
use crate::crypto::{
    derive_public_key, is_valid_secret_scalar, pubkey_of, random_bytes_32, secret_scalar_ok,
};
use crate::errors::WalletError;

verus! {

/// A secret scalar with its derived compressed public key.
pub struct KeyPair {
    secret: Vec<u8>,
    public: Vec<u8>,
}

impl KeyPair {
    /// Every key pair holds a valid 32-byte secret scalar and exactly the
    /// 33-byte public key derived from it.
    #[verifier::type_invariant]
    spec fn inv(self) -> bool {
        &&& self.secret@.len() == 32
        &&& is_valid_secret_scalar(self.secret@)
        &&& self.public@ == pubkey_of(self.secret@)
        &&& self.public@.len() == 33
    }

    /// The secret scalar bytes, as a mathematical value.
    pub closed spec fn secret_view(&self) -> Seq<u8> {
        self.secret@
    }

    /// The compressed public key bytes, as a mathematical value.
    pub closed spec fn public_view(&self) -> Seq<u8> {
        self.public@
    }

    /// Builds a key pair from secret scalar bytes, deriving the public
    /// key. Fails with `InvalidKeyLength` on any length other than 32 and
    /// with `InvalidSecretKey` on a 32-byte value that is not a usable
    /// scalar; succeeds on every other input.
    pub fn from_secret_bytes(secret: &[u8]) -> (r: Result<KeyPair, WalletError>)
        ensures
            secret@.len() != 32 ==> (r matches Err(e) && e == WalletError::InvalidKeyLength),
            secret@.len() == 32 && !is_valid_secret_scalar(secret@) ==> (r matches Err(e) && e
                == WalletError::InvalidSecretKey),
            secret@.len() == 32 && is_valid_secret_scalar(secret@) ==> (r matches Ok(kp)
                && kp.secret_view() == secret@),
    {
        if secret.len() != 32 {
            return Err(WalletError::InvalidKeyLength);
        }
        if !secret_scalar_ok(secret) {
            return Err(WalletError::InvalidSecretKey);
        }
        let public = derive_public_key(secret);
        Ok(KeyPair { secret: slice_to_vec(secret), public })
    }

    /// A copy of the secret scalar bytes. Every key pair's secret is a
    /// valid 32-byte scalar, and its public key is derived from it; those
    /// guarantees surface here.
    pub fn secret_key_bytes(&self) -> (r: Vec<u8>)
        ensures
            r@ == self.secret_view(),
            r@.len() == 32,
            is_valid_secret_scalar(r@),
            self.public_view() == pubkey_of(self.secret_view()),
    {
        proof {
            use_type_invariant(self);
        }
        slice_to_vec(self.secret.as_slice())
    }

    /// A copy of the compressed public key bytes.
    pub fn public_key_bytes(&self) -> (r: Vec<u8>)
        ensures
            r@ == self.public_view(),
            r@.len() == 33,
            r@ == pubkey_of(self.secret_view()),
    {
        proof {
            use_type_invariant(self);
        }
        slice_to_vec(self.public.as_slice())
    }
}

/// Draws a fresh secret key from the operating system's entropy source and
/// derives its public key. Reports `EntropySourceUnavailable` when the
/// source fails; nothing else can fail. A drawn value that is not a valid
/// scalar is redrawn, a case so rare it is treated like exhaustion if it
/// somehow persists.
pub fn generate_keypair() -> (r: Result<KeyPair, WalletError>)
    ensures
        r matches Err(e) ==> e == WalletError::EntropySourceUnavailable,
{
    let mut attempt: usize = 0;
    while attempt < 128
        invariant
            attempt <= 128,
        decreases 128 - attempt,
    {
        let bytes = match random_bytes_32() {
            Some(b) => b,
            None => {
                return Err(WalletError::EntropySourceUnavailable);
            },
        };
        if secret_scalar_ok(bytes.as_slice()) {
            let public = derive_public_key(bytes.as_slice());
            return Ok(KeyPair { secret: bytes, public });
        }
        attempt = attempt + 1;
    }
    Err(WalletError::EntropySourceUnavailable)
}

} // verus!
