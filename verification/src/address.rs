//! The address codec: a public key becomes a checksummed, network-prefixed
//! textual address, and existing addresses are decoded and validated.
//!
//! An address is `<prefix>:<base58-payload>` where the payload bytes are
//! `0x00 || ripemd160(sha256(pubkey)) || checksum4`, and `checksum4` is the
//! first 4 bytes of `sha256(sha256(0x00 || ripemd160(sha256(pubkey))))`.
//! Validation parses on the unique `:`, base58-decodes the rest, and
//! recomputes the trailing 4-byte checksum; every malformed input resolves
//! to `false`, never to a panic. Only structure and checksum are checked:
//! an unrecognized version byte does not invalidate an address.

use vstd::prelude::*;
use vstd::slice::{slice_subrange, slice_to_vec};
use vstd::string::{StrSliceExecFns, StringExecFns};
use crate::crypto::{
    base58_decode, base58_decoded, base58_encode, base58_of, ripemd160, ripemd160_of, sha256,
    sha256_of,
};
use crate::errors::WalletError;

verus! {

/// The version byte prepended to every address payload (pay-to-public-key-
/// hash style).
pub const ADDRESS_VERSION_BYTE: u8 = 0x00;

/// The first 4 bytes of the double SHA-256 of a payload: its checksum.
pub open spec fn checksum4_of(payload: Seq<u8>) -> Seq<u8> {
    sha256_of(sha256_of(payload)).take(4)
}

/// The 21 payload bytes of an address for a public key: the version byte
/// followed by the RIPEMD-160 of the SHA-256 of the key.
pub open spec fn address_payload_of(pubkey: Seq<u8>) -> Seq<u8> {
    seq![ADDRESS_VERSION_BYTE] + ripemd160_of(sha256_of(pubkey))
}

/// The full 25 bytes handed to base58: payload plus its 4-byte checksum.
pub open spec fn checked_payload_of(pubkey: Seq<u8>) -> Seq<u8> {
    address_payload_of(pubkey) + checksum4_of(address_payload_of(pubkey))
}

/// The textual address of a public key under a network prefix.
pub open spec fn address_of(pubkey: Seq<u8>, prefix: Seq<char>) -> Seq<char> {
    prefix + seq![':'] + base58_of(checked_payload_of(pubkey))
}

/// Whether `s` is free of the `:` delimiter.
pub open spec fn has_no_colon(s: Seq<char>) -> bool {
    forall|i: int| 0 <= i < s.len() ==> #[trigger] s[i] != ':'
}

/// Whether position `i` holds the one and only `:` of `addr`.
pub open spec fn is_colon_split(addr: Seq<char>, i: int) -> bool {
    &&& 0 <= i < addr.len()
    &&& addr[i] == ':'
    &&& forall|j: int| 0 <= j < addr.len() && #[trigger] addr[j] == ':' ==> j == i
}

/// Whether `addr` holds exactly one `:`.
pub open spec fn has_unique_colon(addr: Seq<char>) -> bool {
    exists|i: int| is_colon_split(addr, i)
}

/// The position of the unique `:`; meaningful only under
/// `has_unique_colon(addr)`.
pub open spec fn split_index(addr: Seq<char>) -> int {
    choose|i: int| is_colon_split(addr, i)
}

/// The characters after the unique `:`.
pub open spec fn address_suffix(addr: Seq<char>) -> Seq<char> {
    addr.subrange(split_index(addr) + 1, addr.len() as int)
}

/// The bytes the part after the `:` decodes to, or `None` when the
/// delimiter is missing, repeated, or the rest is not base58.
pub open spec fn decoded_payload(addr: Seq<char>) -> Option<Seq<u8>> {
    if has_unique_colon(addr) {
        base58_decoded(address_suffix(addr))
    } else {
        None
    }
}

/// Structural validity: one `:`, a base58 suffix, at least 21 decoded
/// bytes (enough for the version byte, a hash and the 4-byte checksum).
pub open spec fn addr_structure_ok(addr: Seq<char>) -> bool {
    decoded_payload(addr) matches Some(d) && d.len() >= 21
}

/// Checksum validity on top of structure: the last 4 decoded bytes equal
/// the double-SHA-256 checksum of all bytes before them.
pub open spec fn addr_checksum_ok(addr: Seq<char>) -> bool {
    decoded_payload(addr) matches Some(d) && d.len() >= 21 && d.subrange(
        d.len() - 4,
        d.len() as int,
    ) == checksum4_of(d.subrange(0, d.len() - 4))
}

/// Full validity of an address string.
pub open spec fn addr_valid(addr: Seq<char>) -> bool {
    addr_structure_ok(addr) && addr_checksum_ok(addr)
}

/// An address together with the public key it was derived from.
pub struct KaspaAddress {
    /// The textual address, `<prefix>:<base58-payload>`.
    pub address: String,
    /// The 33-byte compressed public key.
    pub public_key: Vec<u8>,
}

/// Computes the 4-byte checksum of `payload`: the first 4 bytes of its
/// double SHA-256.
fn compute_checksum(payload: &[u8]) -> (r: Vec<u8>)
    ensures
        r@ == checksum4_of(payload@),
        r@.len() == 4,
{
    let first = sha256(payload);
    let second = sha256(first.as_slice());
    let r = slice_to_vec(slice_subrange(second.as_slice(), 0, 4));
    proof {
        assert(r@ =~= checksum4_of(payload@));
    }
    r
}

/// Encodes a 33-byte compressed public key as a textual address under a
/// network prefix. Deterministic, and never fails on well-formed input.
///
/// Whenever the prefix is free of `:`, the result is a valid address: this
/// is the encode/validate round trip, pinned here once and inherited by
/// every caller of [`validate_address`].
pub fn generate_address(public_key: &[u8], network_prefix: &str) -> (r: Result<
    String,
    WalletError,
>)
    requires
        public_key@.len() == 33,
    ensures
        r matches Ok(s) && s@ == address_of(public_key@, network_prefix@),
        r matches Ok(s) && (has_no_colon(network_prefix@) ==> addr_valid(s@)),
{
    let sha = sha256(public_key);
    let h160 = ripemd160(sha.as_slice());
    let mut payload: Vec<u8> = Vec::new();
    payload.push(ADDRESS_VERSION_BYTE);
    let mut i: usize = 0;
    while i < h160.len()
        invariant
            h160@.len() == 20,
            i <= 20,
            payload@ == seq![ADDRESS_VERSION_BYTE] + h160@.take(i as int),
        decreases 20 - i,
    {
        payload.push(h160[i]);
        i = i + 1;
    }
    proof {
        assert(payload@ =~= address_payload_of(public_key@));
    }
    let checksum = compute_checksum(payload.as_slice());
    let ghost payload21: Seq<u8> = payload@;
    let mut j: usize = 0;
    while j < 4
        invariant
            checksum@.len() == 4,
            j <= 4,
            payload@ == payload21 + checksum@.take(j as int),
        decreases 4 - j,
    {
        payload.push(checksum[j]);
        j = j + 1;
    }
    proof {
        assert(payload@ =~= checked_payload_of(public_key@));
    }
    let b58 = base58_encode(payload.as_slice());
    let mut out: String = network_prefix.to_owned();
    out.append(":");
    out.append(b58.as_str());
    proof {
        reveal_strlit(":");
        assert(out@ =~= address_of(public_key@, network_prefix@));
        if has_no_colon(network_prefix@) {
            lemma_encoded_address_valid(public_key@, network_prefix@, payload@, b58@, out@);
        }
    }
    Ok(out)
}

/// The address built by the encoder from a colon-free prefix validates:
/// its unique colon sits right after the prefix, the suffix decodes back
/// to the 25 payload bytes, and the trailing checksum matches by
/// construction.
proof fn lemma_encoded_address_valid(
    pubkey: Seq<u8>,
    prefix: Seq<char>,
    payload: Seq<u8>,
    b58: Seq<char>,
    addr: Seq<char>,
)
    requires
        has_no_colon(prefix),
        payload == checked_payload_of(pubkey),
        address_payload_of(pubkey).len() == 21,
        checksum4_of(address_payload_of(pubkey)).len() == 4,
        payload.len() == 25,
        b58 == base58_of(payload),
        base58_decoded(b58) == Some(payload),
        has_no_colon(b58),
        addr == prefix + seq![':'] + b58,
    ensures
        addr_valid(addr),
{
    let p = prefix.len() as int;
    assert(addr[p] == ':');
    assert forall|k: int| 0 <= k < addr.len() && #[trigger] addr[k] == ':' implies k == p by {
        if k < p {
            assert(addr[k] == prefix[k]);
        } else if k > p {
            assert(addr[k] == b58[k - p - 1]);
        }
    }
    assert(is_colon_split(addr, p));
    let i0 = split_index(addr);
    assert(is_colon_split(addr, i0));
    assert(addr[i0] == ':');
    assert(i0 == p);
    assert(address_suffix(addr) =~= b58);
    let d = payload;
    assert(d.subrange(0, d.len() - 4) =~= address_payload_of(pubkey));
    assert(d.subrange(d.len() - 4, d.len() as int) =~= checksum4_of(address_payload_of(pubkey)));
}

/// Decodes an address: finds the unique `:`, base58-decodes what follows,
/// checks the length floor and the 4-byte checksum, and returns the
/// payload bytes (version byte and hash, without the checksum).
///
/// Errors exactly as stated: `InvalidAddressStructure` for a missing or
/// repeated delimiter, a non-base58 suffix or fewer than 21 decoded bytes;
/// `ChecksumMismatch` when only the checksum comparison fails.
pub fn decode_address(address: &str) -> (r: Result<Vec<u8>, WalletError>)
    ensures
        !addr_structure_ok(address@) ==> (r matches Err(e) && e
            == WalletError::InvalidAddressStructure),
        addr_structure_ok(address@) && !addr_checksum_ok(address@) ==> (r matches Err(e) && e
            == WalletError::ChecksumMismatch),
        addr_valid(address@) ==> (r matches Ok(v) && decoded_payload(address@) matches Some(d) && v@
            == d.subrange(0, d.len() - 4)),
{
    let n: usize = address.unicode_len();
    let mut colon_pos: Option<usize> = None;
    let mut i: usize = 0;
    while i < n
        invariant
            n == address@.len(),
            i <= n,
            match colon_pos {
                Some(p) => p < i && address@[p as int] == ':' && forall|j: int|
                    0 <= j < i && #[trigger] address@[j] == ':' ==> j == p as int,
                None => forall|j: int| 0 <= j < i ==> #[trigger] address@[j] != ':',
            },
        decreases n - i,
    {
        let c = address.get_char(i);
        if c == ':' {
            match colon_pos {
                None => {
                    colon_pos = Some(i);
                },
                Some(p) => {
                    proof {
                        lemma_two_colons_invalid(address@, p as int, i as int);
                    }
                    return Err(WalletError::InvalidAddressStructure);
                },
            }
        }
        i = i + 1;
    }
    let p: usize = match colon_pos {
        Some(p) => p,
        None => {
            proof {
                assert forall|k: int| !is_colon_split(address@, k) by {
                    if 0 <= k < address@.len() {
                        assert(address@[k] != ':');
                    }
                }
            }
            return Err(WalletError::InvalidAddressStructure);
        },
    };
    proof {
        assert(is_colon_split(address@, p as int));
        lemma_split_index_agrees(address@, p as int);
    }
    let suffix: &str = address.substring_char(p + 1, n);
    proof {
        assert(suffix@ =~= address_suffix(address@));
    }
    let decoded: Vec<u8> = match base58_decode(suffix) {
        Some(v) => v,
        None => {
            return Err(WalletError::InvalidAddressStructure);
        },
    };
    let len: usize = decoded.len();
    if len < 21 {
        return Err(WalletError::InvalidAddressStructure);
    }
    let payload: &[u8] = slice_subrange(decoded.as_slice(), 0, len - 4);
    let expected = compute_checksum(payload);
    let ghost d: Seq<u8> = decoded@;
    let mut k: usize = 0;
    while k < 4
        invariant
            decoded@ == d,
            decoded_payload(address@) == Some(d),
            d.len() >= 21,
            len == d.len(),
            expected@ == checksum4_of(d.subrange(0, d.len() - 4)),
            expected@.len() == 4,
            k <= 4,
            forall|m: int| 0 <= m < k ==> #[trigger] d[d.len() - 4 + m] == expected@[m],
        decreases 4 - k,
    {
        if decoded[len - 4 + k] != expected[k] {
            proof {
                assert(d.subrange(d.len() - 4, d.len() as int)[k as int] != checksum4_of(
                    d.subrange(0, d.len() - 4),
                )[k as int]);
            }
            return Err(WalletError::ChecksumMismatch);
        }
        k = k + 1;
    }
    proof {
        let lhs = d.subrange(d.len() - 4, d.len() as int);
        let rhs = checksum4_of(d.subrange(0, d.len() - 4));
        assert(rhs.len() == 4);
        assert forall|m: int| 0 <= m < 4 implies lhs[m] == rhs[m] by {
            assert(d[d.len() - 4 + m] == expected@[m]);
        }
        assert(lhs =~= rhs);
    }
    Ok(slice_to_vec(payload))
}

/// With colons at two distinct positions, no position can be the unique
/// one, so the address is invalid.
proof fn lemma_two_colons_invalid(addr: Seq<char>, p1: int, p2: int)
    requires
        0 <= p1 < addr.len(),
        0 <= p2 < addr.len(),
        p1 != p2,
        addr[p1] == ':',
        addr[p2] == ':',
    ensures
        !addr_structure_ok(addr),
        !addr_valid(addr),
{
    assert forall|k: int| !is_colon_split(addr, k) by {
        if k == p1 {
            assert(addr[p2] == ':');
        } else {
            assert(addr[p1] == ':');
        }
    }
}

/// The chosen split position is the witnessed one: uniqueness makes the
/// choice determinate.
proof fn lemma_split_index_agrees(addr: Seq<char>, p: int)
    requires
        is_colon_split(addr, p),
    ensures
        has_unique_colon(addr),
        split_index(addr) == p,
{
    let i0 = split_index(addr);
    assert(is_colon_split(addr, i0));
    assert(addr[i0] == ':');
}

/// Validates an address: `true` exactly when it has one `:`, a base58
/// suffix of at least 21 bytes, and a matching trailing checksum. Total:
/// every string maps to `true` or `false`, never to an error or a panic.
pub fn validate_address(address: &str) -> (r: Result<bool, WalletError>)
    ensures
        r matches Ok(b) && b == addr_valid(address@),
{
    match decode_address(address) {
        Ok(_) => Ok(true),
        Err(_) => Ok(false),
    }
}

} // verus!
