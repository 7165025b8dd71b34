//! Lowercase hexadecimal encoding and decoding of byte strings, specified
//! character by character and verified against that specification.
//!
//! Keys cross the wallet boundary as hex text (64 characters for a 32-byte
//! secret key, 66 for a 33-byte compressed public key), and transaction
//! identifiers are 64 hex characters; this module is the single place where
//! that text form is produced and checked.

use vstd::prelude::*;
use crate::errors::WalletError;

verus! {

/// The lowercase hex character for a nibble `n < 16`.
pub open spec fn hex_digit_char(n: u8) -> char
    recommends
        n < 16,
{
    if n < 10 {
        (n + 0x30) as char
    } else {
        (n + 0x57) as char
    }
}

/// Whether `c` is a hex digit, upper or lower case.
pub open spec fn is_hex_digit(c: char) -> bool {
    (0x30 <= c as int && c as int <= 0x39)  // '0'..='9'
    || (0x61 <= c as int && c as int <= 0x66)  // 'a'..='f'
    || (0x41 <= c as int && c as int <= 0x46)  // 'A'..='F'
}

/// The value of a hex digit; meaningful only when `is_hex_digit(c)`.
pub open spec fn hex_char_val(c: char) -> int
    recommends
        is_hex_digit(c),
{
    if 0x30 <= c as int && c as int <= 0x39 {
        c as int - 0x30
    } else if 0x61 <= c as int && c as int <= 0x66 {
        c as int - 0x57
    } else {
        c as int - 0x37
    }
}

/// The lowercase hex text of a byte string: two digits per byte, high
/// nibble first.
pub open spec fn hex_chars_of(b: Seq<u8>) -> Seq<char> {
    Seq::new(2 * b.len(), |i: int| if i % 2 == 0 {
        hex_digit_char(b[i / 2] / 16)
    } else {
        hex_digit_char(b[i / 2] % 16)
    })
}

/// Whether `s` is well-formed hex text: even length, hex digits throughout.
pub open spec fn is_hex_seq(s: Seq<char>) -> bool {
    s.len() % 2 == 0 && (forall|i: int| 0 <= i < s.len() ==> is_hex_digit(#[trigger] s[i]))
}

/// The bytes denoted by hex text; meaningful only when `is_hex_seq(s)`.
pub open spec fn hex_decoded(s: Seq<char>) -> Seq<u8>
    recommends
        is_hex_seq(s),
{
    Seq::new(s.len() / 2, |i: int| (16 * hex_char_val(s[2 * i]) + hex_char_val(
        s[2 * i + 1],
    )) as u8)
}

/// Builds a `String` from bytes that are all ASCII.
///
/// Relies on `String::from_utf8`: ASCII bytes are valid UTF-8 and decode to
/// the characters with the same code points.
#[verifier::external_body]
fn string_from_ascii(b: Vec<u8>) -> (r: String)
    requires
        forall|i: int| 0 <= i < b@.len() ==> #[trigger] b@[i] < 128,
    ensures
        r@.len() == b@.len(),
        forall|i: int| 0 <= i < b@.len() ==> #[trigger] r@[i] == b@[i] as char,
{
    String::from_utf8(b).unwrap_or_default()
}

/// The ASCII code of the lowercase hex digit for a nibble.
fn hex_digit_ascii(n: u8) -> (r: u8)
    requires
        n < 16,
    ensures
        r as char == hex_digit_char(n),
        r < 128,
{
    if n < 10 {
        n + 0x30
    } else {
        n + 0x57
    }
}

/// Encodes bytes as lowercase hex text, two digits per byte.
pub fn encode_hex(bytes: &[u8]) -> (r: String)
    ensures
        r@ == hex_chars_of(bytes@),
{
    let mut ascii: Vec<u8> = Vec::new();
    let n: usize = bytes.len();
    let mut i: usize = 0;
    while i < n
        invariant
            n == bytes@.len(),
            i <= n,
            ascii@.len() == 2 * i,
            forall|j: int| 0 <= j < ascii@.len() ==> #[trigger] ascii@[j] as char == hex_chars_of(
                bytes@,
            )[j] && ascii@[j] < 128,
        decreases n - i,
    {
        let b: u8 = bytes[i];
        let hi: u8 = hex_digit_ascii(b / 16);
        let lo: u8 = hex_digit_ascii(b % 16);
        ascii.push(hi);
        ascii.push(lo);
        i = i + 1;
    }
    let r = string_from_ascii(ascii);
    proof {
        assert(r@ =~= hex_chars_of(bytes@));
    }
    r
}

/// The value of a hex digit character, or `None` when it is not one.
fn hex_val_exec(c: char) -> (r: Option<u8>)
    ensures
        match r {
            Some(v) => is_hex_digit(c) && v as int == hex_char_val(c) && v < 16,
            None => !is_hex_digit(c),
        },
{
    let u: u32 = c as u32;
    if 0x30 <= u && u <= 0x39 {
        Some((u - 0x30) as u8)
    } else if 0x61 <= u && u <= 0x66 {
        Some((u - 0x57) as u8)
    } else if 0x41 <= u && u <= 0x46 {
        Some((u - 0x37) as u8)
    } else {
        None
    }
}

/// Decodes hex text to bytes. Succeeds exactly on well-formed hex text
/// (even length, hex digits throughout, either case); every malformed
/// input yields `InvalidHexEncoding`.
pub fn decode_hex(s: &str) -> (r: Result<Vec<u8>, WalletError>)
    ensures
        is_hex_seq(s@) ==> (r matches Ok(v) && v@ == hex_decoded(s@)),
        !is_hex_seq(s@) ==> (r matches Err(e) && e == WalletError::InvalidHexEncoding),
{
    let n: usize = s.unicode_len();
    if n % 2 != 0 {
        return Err(WalletError::InvalidHexEncoding);
    }
    let mut out: Vec<u8> = Vec::new();
    let mut i: usize = 0;
    while i < n
        invariant
            n == s@.len(),
            n % 2 == 0,
            i % 2 == 0,
            i <= n,
            forall|j: int| 0 <= j < i ==> is_hex_digit(#[trigger] s@[j]),
            out@.len() == i / 2,
            forall|k: int| 0 <= k < out@.len() ==> #[trigger] out@[k] as int == 16 * hex_char_val(
                s@[2 * k],
            ) + hex_char_val(s@[2 * k + 1]),
        decreases n - i,
    {
        let c_hi = s.get_char(i);
        let c_lo = s.get_char(i + 1);
        let hi: u8 = match hex_val_exec(c_hi) {
            Some(v) => v,
            None => {
                return Err(WalletError::InvalidHexEncoding);
            },
        };
        let lo: u8 = match hex_val_exec(c_lo) {
            Some(v) => v,
            None => {
                return Err(WalletError::InvalidHexEncoding);
            },
        };
        out.push(16 * hi + lo);
        i = i + 2;
    }
    proof {
        assert(out@ =~= hex_decoded(s@));
    }
    Ok(out)
}

} // verus!
