//! Named results and trusted wrappers for the cryptographic and base58
//! primitives the wallet core rests on.
//!
//! Each digest, encoding or signature below is a pure function of its
//! arguments; the wallet's own logic is stated and verified over these
//! names, while the primitives themselves are computed by the outside
//! crates named on each wrapper.

use vstd::prelude::*;
use sha2::Digest;

verus! {

/// The SHA-256 digest (32 bytes) of a byte string.
pub uninterp spec fn sha256_of(data: Seq<u8>) -> Seq<u8>;

/// The RIPEMD-160 digest (20 bytes) of a byte string.
pub uninterp spec fn ripemd160_of(data: Seq<u8>) -> Seq<u8>;

/// The base58 text (Bitcoin alphabet) of a byte string.
pub uninterp spec fn base58_of(data: Seq<u8>) -> Seq<char>;

/// The bytes a base58 text denotes, or `None` when the text is not valid
/// base58 under the Bitcoin alphabet.
pub uninterp spec fn base58_decoded(text: Seq<char>) -> Option<Seq<u8>>;

/// Whether 32 bytes form a usable secp256k1 secret scalar (nonzero and
/// below the curve order, read big-endian).
pub uninterp spec fn is_valid_secret_scalar(key: Seq<u8>) -> bool;

/// The 33-byte compressed SEC1 encoding of the public point derived from a
/// valid secret scalar.
pub uninterp spec fn pubkey_of(key: Seq<u8>) -> Seq<u8>;

/// The 64-byte compact ECDSA signature of a 32-byte digest under a valid
/// secret scalar, with the deterministic RFC 6979 nonce.
pub uninterp spec fn ecdsa_signature_of(digest: Seq<u8>, key: Seq<u8>) -> Seq<u8>;

/// Relies on `sha2::Sha256`: a deterministic digest of exactly 32 bytes.
#[verifier::external_body]
pub(crate) fn sha256(data: &[u8]) -> (r: Vec<u8>)
    ensures
        r@ == sha256_of(data@),
        r@.len() == 32,
{
    sha2::Sha256::digest(data).to_vec()
}

/// Relies on `ripemd::Ripemd160`: a deterministic digest of exactly 20 bytes.
#[verifier::external_body]
pub(crate) fn ripemd160(data: &[u8]) -> (r: Vec<u8>)
    ensures
        r@ == ripemd160_of(data@),
        r@.len() == 20,
{
    ripemd::Ripemd160::digest(data).to_vec()
}

/// Relies on `bs58::encode` with its default Bitcoin alphabet: the output
/// is drawn from that alphabet (58 alphanumeric characters, so never `:`),
/// and `bs58::decode` inverts it.
#[verifier::external_body]
pub(crate) fn base58_encode(data: &[u8]) -> (r: String)
    ensures
        r@ == base58_of(data@),
        base58_decoded(r@) == Some(data@),
        forall|i: int| 0 <= i < r@.len() ==> #[trigger] r@[i] != ':' && r@[i] < 128,
{
    bs58::encode(data).into_string()
}

/// Relies on `bs58::decode` with its default Bitcoin alphabet: it accepts
/// exactly the strings over that alphabet and is deterministic.
#[verifier::external_body]
pub(crate) fn base58_decode(text: &str) -> (r: Option<Vec<u8>>)
    ensures
        match r {
            Some(v) => base58_decoded(text@) == Some(v@),
            None => base58_decoded(text@) is None,
        },
{
    bs58::decode(text).into_vec().ok()
}

/// Relies on `secp256k1::SecretKey::from_secret_bytes`: it accepts exactly
/// the 32-byte arrays that are nonzero and below the curve order.
#[verifier::external_body]
pub(crate) fn secret_scalar_ok(key: &[u8]) -> (r: bool)
    requires
        key@.len() == 32,
    ensures
        r == is_valid_secret_scalar(key@),
{
    let mut arr = [0u8; 32];
    arr.copy_from_slice(key);
    secp256k1::SecretKey::from_secret_bytes(arr).is_ok()
}

/// Relies on `secp256k1::PublicKey::from_secret_key` and
/// `PublicKey::serialize`: the derived point in its 33-byte compressed
/// encoding, a deterministic function of the secret scalar.
#[verifier::external_body]
pub(crate) fn derive_public_key(key: &[u8]) -> (r: Vec<u8>)
    requires
        key@.len() == 32,
        is_valid_secret_scalar(key@),
    ensures
        r@ == pubkey_of(key@),
        r@.len() == 33,
{
    let mut arr = [0u8; 32];
    arr.copy_from_slice(key);
    let sk = secp256k1::SecretKey::from_secret_bytes(arr).unwrap();
    secp256k1::PublicKey::from_secret_key(&sk).serialize().to_vec()
}

/// Relies on `secp256k1::ecdsa::sign` and `Signature::serialize_compact`:
/// an RFC 6979 deterministic signature, 64 bytes in compact form, a
/// function of the digest and the secret scalar alone.
#[verifier::external_body]
pub(crate) fn ecdsa_sign(digest: &[u8], key: &[u8]) -> (r: Vec<u8>)
    requires
        digest@.len() == 32,
        key@.len() == 32,
        is_valid_secret_scalar(key@),
    ensures
        r@ == ecdsa_signature_of(digest@, key@),
        r@.len() == 64,
{
    let mut d = [0u8; 32];
    d.copy_from_slice(digest);
    let mut arr = [0u8; 32];
    arr.copy_from_slice(key);
    let sk = secp256k1::SecretKey::from_secret_bytes(arr).unwrap();
    let sig = secp256k1::ecdsa::sign(secp256k1::Message::from_digest(d), &sk);
    sig.serialize_compact().to_vec()
}

/// Relies on `rand::rngs::OsRng::try_fill_bytes`: 32 bytes from the
/// operating system's entropy source, or `None` when that source fails.
/// Nothing else is assumed of the bytes.
#[verifier::external_body]
pub(crate) fn random_bytes_32() -> (r: Option<Vec<u8>>)
    ensures
        r matches Some(v) ==> v@.len() == 32,
{
    let mut buf = [0u8; 32];
    match rand::RngCore::try_fill_bytes(&mut rand::rngs::OsRng, &mut buf) {
        Ok(()) => Some(buf.to_vec()),
        Err(_) => None,
    }
}

} // verus!
