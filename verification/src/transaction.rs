//! The transaction model: ordered inputs and outputs, a deterministic
//! per-input signing payload, ECDSA signature attachment, a fixed binary
//! serialization, and a linear fee estimate.
//!
//! ## Wire format
//!
//! All integers are big-endian and fixed-width. A serialized transaction
//! is:
//!
//! * `version` — 2 bytes;
//! * input count — 4 bytes; then per input: the 32 `txid` bytes, `vout`
//!   (4 bytes), a presence flag (1 byte, `0` or `1`), and, when the flag
//!   is `1`, the 64 compact signature bytes;
//! * output count — 4 bytes; then per output: the address's byte
//!   length (4 bytes), the address's UTF-8 bytes, and `amount` (8 bytes).
//!
//! The signing payload of input `i` is the same layout with the input
//! index (4 bytes) after the version and every input written unsigned
//! (no flag, no signature), so it is independent of which inputs already
//! carry signatures. What is signed is the SHA-256 of that payload.

use vstd::prelude::*;
use vstd::utf8::encode_utf8;
use vstd::arithmetic::div_mod::lemma_div_is_ordered;
use crate::address::addr_valid;
use crate::crypto::{ecdsa_sign, ecdsa_signature_of, sha256, sha256_of};
use crate::errors::WalletError;
use crate::hexcodec::{hex_decoded, is_hex_seq};
use crate::keys::KeyPair;

verus! {

/// The version every transaction built by this library carries.
pub const TRANSACTION_VERSION: u16 = 1;

/// A reference to a prior output, plus the signature once attached.
#[derive(Clone, Debug)]
pub struct TxInput {
    /// The referenced transaction id, 32 bytes.
    pub txid: Vec<u8>,
    /// The referenced output index.
    pub vout: u32,
    /// The 64-byte compact signature, present only after signing.
    pub signature: Option<Vec<u8>>,
}

/// A destination address with an amount in the smallest unit.
#[derive(Clone, Debug)]
pub struct TxOutput {
    /// The validated destination address.
    pub address: String,
    /// The amount, in the smallest unit.
    pub amount: u64,
}

/// A transaction: a version and ordered input and output lists.
#[derive(Clone, Debug)]
pub struct Transaction {
    /// The format version written first in the serialization.
    pub version: u16,
    /// The ordered inputs.
    pub inputs: Vec<TxInput>,
    /// The ordered outputs.
    pub outputs: Vec<TxOutput>,
}

/// The mathematical value of a `TxInput`.
#[verifier::ext_equal]
pub struct TxInputV {
    pub txid: Seq<u8>,
    pub vout: u32,
    pub signature: Option<Seq<u8>>,
}

/// The mathematical value of a `TxOutput`.
#[verifier::ext_equal]
pub struct TxOutputV {
    pub address: Seq<char>,
    pub amount: u64,
}

/// The mathematical value of a `Transaction`.
#[verifier::ext_equal]
pub struct TransactionV {
    pub version: u16,
    pub inputs: Seq<TxInputV>,
    pub outputs: Seq<TxOutputV>,
}

impl View for TxInput {
    type V = TxInputV;

    open spec fn view(&self) -> TxInputV {
        TxInputV {
            txid: self.txid@,
            vout: self.vout,
            signature: match self.signature {
                Some(s) => Some(s@),
                None => None,
            },
        }
    }
}

impl View for TxOutput {
    type V = TxOutputV;

    open spec fn view(&self) -> TxOutputV {
        TxOutputV { address: self.address@, amount: self.amount }
    }
}

impl View for Transaction {
    type V = TransactionV;

    open spec fn view(&self) -> TransactionV {
        TransactionV {
            version: self.version,
            inputs: self.inputs@.map_values(|i: TxInput| i@),
            outputs: self.outputs@.map_values(|o: TxOutput| o@),
        }
    }
}

impl TxInputV {
    /// A 32-byte txid; a signature, when present, of 64 bytes.
    pub open spec fn wf(self) -> bool {
        &&& self.txid.len() == 32
        &&& match self.signature {
            Some(s) => s.len() == 64,
            None => true,
        }
    }
}

impl TxOutputV {
    /// An address whose UTF-8 encoding fits its 4-byte length prefix.
    pub open spec fn wf(self) -> bool {
        encode_utf8(self.address).len() <= u32::MAX
    }
}

impl TransactionV {
    /// Well-formedness: counts fit their 4-byte prefixes and every input
    /// and output is well-formed. Established by `Transaction::new` and
    /// preserved by every mutating method.
    pub open spec fn wf(self) -> bool {
        &&& self.inputs.len() <= u32::MAX
        &&& self.outputs.len() <= u32::MAX
        &&& forall|i: int| 0 <= i < self.inputs.len() ==> (#[trigger] self.inputs[i]).wf()
        &&& forall|i: int| 0 <= i < self.outputs.len() ==> (#[trigger] self.outputs[i]).wf()
    }
}

/// A `txid` in its textual form: exactly 64 hex characters.
pub open spec fn valid_txid(s: Seq<char>) -> bool {
    s.len() == 64 && is_hex_seq(s)
}

/// An address a transaction admits as an output destination: valid under
/// the address codec. The one further bound is a machine limit: the
/// UTF-8 encoding must fit the wire format's 4-byte length prefix.
pub open spec fn acceptable_output_address(s: Seq<char>) -> bool {
    addr_valid(s) && encode_utf8(s).len() <= u32::MAX
}

/// The two big-endian bytes of a `u16`.
pub open spec fn u16_be(x: u16) -> Seq<u8> {
    seq![(x >> 8) as u8, x as u8]
}

/// The four big-endian bytes of a `u32`.
pub open spec fn u32_be(x: u32) -> Seq<u8> {
    seq![(x >> 24) as u8, (x >> 16) as u8, (x >> 8) as u8, x as u8]
}

/// The eight big-endian bytes of a `u64`.
pub open spec fn u64_be(x: u64) -> Seq<u8> {
    seq![
        (x >> 56) as u8,
        (x >> 48) as u8,
        (x >> 40) as u8,
        (x >> 32) as u8,
        (x >> 24) as u8,
        (x >> 16) as u8,
        (x >> 8) as u8,
        x as u8,
    ]
}

/// The serialized record of one input.
pub open spec fn ser_input(i: TxInputV) -> Seq<u8> {
    i.txid + u32_be(i.vout) + match i.signature {
        Some(s) => seq![1u8] + s,
        None => seq![0u8],
    }
}

/// The unsigned record of one input, as written into signing payloads.
pub open spec fn ser_input_unsigned(i: TxInputV) -> Seq<u8> {
    i.txid + u32_be(i.vout)
}

/// The serialized record of one output: the UTF-8 bytes of the address
/// behind their byte count, then the amount.
pub open spec fn ser_output(o: TxOutputV) -> Seq<u8> {
    u32_be(encode_utf8(o.address).len() as u32) + encode_utf8(o.address) + u64_be(o.amount)
}

/// The concatenated records of a sequence of inputs.
pub open spec fn ser_inputs(s: Seq<TxInputV>) -> Seq<u8>
    decreases s.len(),
{
    if s.len() == 0 {
        Seq::empty()
    } else {
        ser_inputs(s.drop_last()) + ser_input(s.last())
    }
}

/// The concatenated unsigned records of a sequence of inputs.
pub open spec fn ser_inputs_unsigned(s: Seq<TxInputV>) -> Seq<u8>
    decreases s.len(),
{
    if s.len() == 0 {
        Seq::empty()
    } else {
        ser_inputs_unsigned(s.drop_last()) + ser_input_unsigned(s.last())
    }
}

/// The concatenated records of a sequence of outputs.
pub open spec fn ser_outputs(s: Seq<TxOutputV>) -> Seq<u8>
    decreases s.len(),
{
    if s.len() == 0 {
        Seq::empty()
    } else {
        ser_outputs(s.drop_last()) + ser_output(s.last())
    }
}

/// The full serialization of a transaction.
pub open spec fn ser_tx(t: TransactionV) -> Seq<u8> {
    u16_be(t.version) + u32_be(t.inputs.len() as u32) + ser_inputs(t.inputs) + u32_be(
        t.outputs.len() as u32,
    ) + ser_outputs(t.outputs)
}

/// The deterministic signing payload of input `index`: version, index,
/// and the transaction's inputs (unsigned form) and outputs.
pub open spec fn sighash_bytes(t: TransactionV, index: int) -> Seq<u8> {
    u16_be(t.version) + u32_be(index as u32) + u32_be(t.inputs.len() as u32) + ser_inputs_unsigned(
        t.inputs,
    ) + u32_be(t.outputs.len() as u32) + ser_outputs(t.outputs)
}

/// The signature `sign_input` attaches to input `index`: the RFC 6979
/// ECDSA signature of the SHA-256 of the signing payload.
pub open spec fn input_signature_of(t: TransactionV, index: int, key: Seq<u8>) -> Seq<u8> {
    ecdsa_signature_of(sha256_of(sighash_bytes(t, index)), key)
}

/// The serialized size of one input record once signed.
pub open spec fn input_record_size() -> int {
    101
}

/// The serialized size of one output record.
pub open spec fn output_record_size(o: TxOutputV) -> int {
    12 + encode_utf8(o.address).len() as int
}

/// The total serialized size of a sequence of output records.
pub open spec fn outputs_total_size(s: Seq<TxOutputV>) -> int
    decreases s.len(),
{
    if s.len() == 0 {
        0
    } else {
        outputs_total_size(s.drop_last()) + output_record_size(s.last())
    }
}

/// The size model behind fee estimation: the length the transaction
/// serializes to once every input carries a signature.
pub open spec fn estimated_size(t: TransactionV) -> int {
    10 + input_record_size() * t.inputs.len() + outputs_total_size(t.outputs)
}

/// The linear fee rule: `ceil(size * fee_rate / 1000)`, the rate being
/// per kilobyte-equivalent.
pub open spec fn fee_for(size: int, fee_rate: u64) -> int {
    (size * fee_rate + 999) / 1000
}

/// The fee rule, saturated at `u64::MAX` where the product leaves `u64`.
pub open spec fn capped_fee(size: int, fee_rate: u64) -> int {
    if fee_for(size, fee_rate) > u64::MAX {
        u64::MAX as int
    } else {
        fee_for(size, fee_rate)
    }
}

/// Appends the two big-endian bytes of `x`.
fn push_u16_be(out: &mut Vec<u8>, x: u16)
    ensures
        final(out)@ == old(out)@ + u16_be(x),
{
    out.push((x >> 8) as u8);
    out.push(x as u8);
    proof {
        assert(final(out)@ =~= old(out)@ + u16_be(x));
    }
}

/// Appends the four big-endian bytes of `x`.
fn push_u32_be(out: &mut Vec<u8>, x: u32)
    ensures
        final(out)@ == old(out)@ + u32_be(x),
{
    out.push((x >> 24) as u8);
    out.push((x >> 16) as u8);
    out.push((x >> 8) as u8);
    out.push(x as u8);
    proof {
        assert(final(out)@ =~= old(out)@ + u32_be(x));
    }
}

/// Appends the eight big-endian bytes of `x`.
fn push_u64_be(out: &mut Vec<u8>, x: u64)
    ensures
        final(out)@ == old(out)@ + u64_be(x),
{
    out.push((x >> 56) as u8);
    out.push((x >> 48) as u8);
    out.push((x >> 40) as u8);
    out.push((x >> 32) as u8);
    out.push((x >> 24) as u8);
    out.push((x >> 16) as u8);
    out.push((x >> 8) as u8);
    out.push(x as u8);
    proof {
        assert(final(out)@ =~= old(out)@ + u64_be(x));
    }
}

/// Appends all bytes of `b`.
fn push_bytes(out: &mut Vec<u8>, b: &[u8])
    ensures
        final(out)@ == old(out)@ + b@,
{
    let mut i: usize = 0;
    while i < b.len()
        invariant
            i <= b@.len(),
            out@ == old(out)@ + b@.take(i as int),
        decreases b@.len() - i,
    {
        out.push(b[i]);
        proof {
            assert(old(out)@ + b@.take(i as int) + seq![b@[i as int]] =~= old(out)@ + b@.take(
                i as int + 1,
            ));
        }
        i = i + 1;
    }
    proof {
        assert(old(out)@ + b@.take(b@.len() as int) =~= old(out)@ + b@);
    }
}

/// Appends the serialized record of one input.
fn push_input(out: &mut Vec<u8>, inp: &TxInput)
    ensures
        final(out)@ == old(out)@ + ser_input(inp@),
{
    push_bytes(out, inp.txid.as_slice());
    push_u32_be(out, inp.vout);
    match &inp.signature {
        Some(s) => {
            out.push(1);
            push_bytes(out, s.as_slice());
        },
        None => {
            out.push(0);
        },
    }
    proof {
        assert(final(out)@ =~= old(out)@ + ser_input(inp@));
    }
}

/// Appends the unsigned record of one input.
fn push_input_unsigned(out: &mut Vec<u8>, inp: &TxInput)
    ensures
        final(out)@ == old(out)@ + ser_input_unsigned(inp@),
{
    push_bytes(out, inp.txid.as_slice());
    push_u32_be(out, inp.vout);
    proof {
        assert(final(out)@ =~= old(out)@ + ser_input_unsigned(inp@));
    }
}

/// Appends the serialized record of one output: the UTF-8 bytes of its
/// address behind their byte count, then the amount.
fn push_output(out: &mut Vec<u8>, o: &TxOutput)
    requires
        o@.wf(),
    ensures
        final(out)@ == old(out)@ + ser_output(o@),
{
    let abytes: &[u8] = o.address.as_str().as_bytes();
    proof {
        assert(abytes@ == encode_utf8(o.address@));
    }
    let len: usize = abytes.len();
    push_u32_be(out, len as u32);
    push_bytes(out, abytes);
    push_u64_be(out, o.amount);
    proof {
        assert(final(out)@ =~= old(out)@ + ser_output(o@));
    }
}

impl Transaction {
    /// An empty transaction with the library's version.
    pub fn new() -> (r: Transaction)
        ensures
            r@.version == TRANSACTION_VERSION,
            r@.inputs == Seq::<TxInputV>::empty(),
            r@.outputs == Seq::<TxOutputV>::empty(),
            r@.wf(),
    {
        let r = Transaction { version: TRANSACTION_VERSION, inputs: Vec::new(), outputs: Vec::new() };
        proof {
            assert(r@.inputs =~= Seq::<TxInputV>::empty());
            assert(r@.outputs =~= Seq::<TxOutputV>::empty());
        }
        r
    }

    /// Appends an unsigned input referencing output `vout` of the
    /// transaction named by `txid`, which must be 64 hex characters;
    /// anything else is rejected with `InvalidHexEncoding` and leaves the
    /// transaction unchanged.
    pub fn add_input(&mut self, txid: &str, vout: u32) -> (r: Result<(), WalletError>)
        requires
            old(self)@.wf(),
            old(self)@.inputs.len() < u32::MAX,
        ensures
            final(self)@.wf(),
            valid_txid(txid@) ==> (r is Ok && final(self)@ == TransactionV {
                inputs: old(self)@.inputs.push(
                    TxInputV { txid: hex_decoded(txid@), vout, signature: None },
                ),
                ..old(self)@
            }),
            !valid_txid(txid@) ==> (r matches Err(e) && e == WalletError::InvalidHexEncoding
                && final(self)@ == old(self)@),
    {
        let bytes = match crate::hexcodec::decode_hex(txid) {
            Ok(b) => b,
            Err(e) => {
                return Err(e);
            },
        };
        if bytes.len() != 32 {
            return Err(WalletError::InvalidHexEncoding);
        }
        self.inputs.push(TxInput { txid: bytes, vout, signature: None });
        proof {
            assert(final(self)@.inputs =~= old(self)@.inputs.push(
                TxInputV { txid: hex_decoded(txid@), vout, signature: None },
            ));
            assert(final(self)@ =~= TransactionV {
                inputs: old(self)@.inputs.push(
                    TxInputV { txid: hex_decoded(txid@), vout, signature: None },
                ),
                ..old(self)@
            });
        }
        Ok(())
    }

    /// Appends an output after validating its address with the address
    /// codec; an address that fails validation (or whose UTF-8 form is
    /// too long for its 4-byte length prefix) is rejected with
    /// `InvalidOutputAddress` before it ever reaches the output list.
    pub fn add_output(&mut self, address: &str, amount: u64) -> (r: Result<(), WalletError>)
        requires
            old(self)@.wf(),
            old(self)@.outputs.len() < u32::MAX,
        ensures
            final(self)@.wf(),
            acceptable_output_address(address@) ==> (r is Ok && final(self)@ == TransactionV {
                outputs: old(self)@.outputs.push(TxOutputV { address: address@, amount }),
                ..old(self)@
            }),
            !acceptable_output_address(address@) ==> (r matches Err(e) && e
                == WalletError::InvalidOutputAddress && final(self)@ == old(self)@),
    {
        let valid = match crate::address::validate_address(address) {
            Ok(b) => b,
            Err(_) => false,
        };
        let abytes: &[u8] = address.as_bytes();
        proof {
            assert(abytes@ == encode_utf8(address@));
        }
        if !valid || abytes.len() > u32::MAX as usize {
            return Err(WalletError::InvalidOutputAddress);
        }
        self.outputs.push(TxOutput { address: address.to_owned(), amount });
        proof {
            assert(final(self)@.outputs =~= old(self)@.outputs.push(
                TxOutputV { address: address@, amount },
            ));
            assert(final(self)@ =~= TransactionV {
                outputs: old(self)@.outputs.push(TxOutputV { address: address@, amount }),
                ..old(self)@
            });
        }
        Ok(())
    }

    /// Appends an output with an empty placeholder address, bypassing
    /// validation. Only for size estimation: the placeholder stands in
    /// for a destination when only the serialized length matters.
    pub fn add_placeholder_output(&mut self, amount: u64)
        requires
            old(self)@.wf(),
            old(self)@.outputs.len() < u32::MAX,
        ensures
            final(self)@.wf(),
            final(self)@ == (TransactionV {
                outputs: old(self)@.outputs.push(
                    TxOutputV { address: Seq::<char>::empty(), amount },
                ),
                ..old(self)@
            }),
    {
        self.outputs.push(TxOutput { address: String::new(), amount });
        proof {
            assert(encode_utf8(Seq::<char>::empty()).len() == 0);
            assert(final(self)@.outputs =~= old(self)@.outputs.push(
                TxOutputV { address: Seq::<char>::empty(), amount },
            ));
            assert(final(self)@ =~= TransactionV {
                outputs: old(self)@.outputs.push(
                    TxOutputV { address: Seq::<char>::empty(), amount },
                ),
                ..old(self)@
            });
        }
    }

    /// The deterministic signing payload of input `index`: the
    /// transaction's version, the index, and the current input (unsigned
    /// form) and output lists. Fails with `IndexOutOfRange` when `index`
    /// is at or past the input count.
    pub fn signing_payload(&self, index: usize) -> (r: Result<Vec<u8>, WalletError>)
        requires
            self@.wf(),
        ensures
            index < self@.inputs.len() ==> (r matches Ok(v) && v@ == sighash_bytes(
                self@,
                index as int,
            )),
            index >= self@.inputs.len() ==> (r matches Err(e) && e == WalletError::IndexOutOfRange),
    {
        if index >= self.inputs.len() {
            return Err(WalletError::IndexOutOfRange);
        }
        let mut out: Vec<u8> = Vec::new();
        push_u16_be(&mut out, self.version);
        push_u32_be(&mut out, index as u32);
        push_u32_be(&mut out, self.inputs.len() as u32);
        let ghost head = out@;
        let mut i: usize = 0;
        while i < self.inputs.len()
            invariant
                self@.wf(),
                i <= self@.inputs.len(),
                out@ == head + ser_inputs_unsigned(self@.inputs.take(i as int)),
            decreases self@.inputs.len() - i,
        {
            push_input_unsigned(&mut out, &self.inputs[i]);
            proof {
                let s = self@.inputs;
                assert(s.take(i as int + 1).drop_last() =~= s.take(i as int));
                assert(out@ =~= head + ser_inputs_unsigned(s.take(i as int + 1)));
            }
            i = i + 1;
        }
        proof {
            assert(self@.inputs.take(self@.inputs.len() as int) =~= self@.inputs);
        }
        push_u32_be(&mut out, self.outputs.len() as u32);
        let ghost head2 = out@;
        let mut j: usize = 0;
        while j < self.outputs.len()
            invariant
                self@.wf(),
                j <= self@.outputs.len(),
                out@ == head2 + ser_outputs(self@.outputs.take(j as int)),
            decreases self@.outputs.len() - j,
        {
            let o = &self.outputs[j];
            proof {
                assert(o@ == self@.outputs[j as int]);
            }
            push_output(&mut out, o);
            proof {
                let s = self@.outputs;
                assert(s.take(j as int + 1).drop_last() =~= s.take(j as int));
                assert(out@ =~= head2 + ser_outputs(s.take(j as int + 1)));
            }
            j = j + 1;
        }
        proof {
            assert(self@.outputs.take(self@.outputs.len() as int) =~= self@.outputs);
            assert(out@ =~= sighash_bytes(self@, index as int));
        }
        Ok(out)
    }

    /// Signs input `index` with the key pair and stores the signature on
    /// that input, overwriting any earlier one. With `index` at or past
    /// the input count it fails with `IndexOutOfRange` and leaves the
    /// transaction unmodified.
    pub fn sign_input(&mut self, index: usize, keys: &KeyPair) -> (r: Result<(), WalletError>)
        requires
            old(self)@.wf(),
        ensures
            final(self)@.wf(),
            index < old(self)@.inputs.len() ==> (r is Ok && final(self)@ == TransactionV {
                inputs: old(self)@.inputs.update(
                    index as int,
                    TxInputV {
                        signature: Some(
                            input_signature_of(old(self)@, index as int, keys.secret_view()),
                        ),
                        ..old(self)@.inputs[index as int]
                    },
                ),
                ..old(self)@
            }),
            index >= old(self)@.inputs.len() ==> (r matches Err(e) && e
                == WalletError::IndexOutOfRange && final(self)@ == old(self)@),
    {
        let payload = match self.signing_payload(index) {
            Ok(p) => p,
            Err(e) => {
                return Err(e);
            },
        };
        let digest = sha256(payload.as_slice());
        let sk = keys.secret_key_bytes();
        let sig = ecdsa_sign(digest.as_slice(), sk.as_slice());
        let mut inp = self.inputs.remove(index);
        inp.signature = Some(sig);
        self.inputs.insert(index, inp);
        proof {
            assert(final(self)@.inputs =~= old(self)@.inputs.update(
                index as int,
                TxInputV {
                    signature: Some(
                        input_signature_of(old(self)@, index as int, keys.secret_view()),
                    ),
                    ..old(self)@.inputs[index as int]
                },
            ));
            assert(final(self)@ =~= TransactionV {
                inputs: old(self)@.inputs.update(
                    index as int,
                    TxInputV {
                        signature: Some(
                            input_signature_of(old(self)@, index as int, keys.secret_view()),
                        ),
                        ..old(self)@.inputs[index as int]
                    },
                ),
                ..old(self)@
            });
        }
        Ok(())
    }

    /// Serializes the transaction into the documented wire format.
    pub fn serialize(&self) -> (r: Result<Vec<u8>, WalletError>)
        requires
            self@.wf(),
        ensures
            r matches Ok(v) && v@ == ser_tx(self@),
    {
        let mut out: Vec<u8> = Vec::new();
        push_u16_be(&mut out, self.version);
        push_u32_be(&mut out, self.inputs.len() as u32);
        let ghost head = out@;
        let mut i: usize = 0;
        while i < self.inputs.len()
            invariant
                self@.wf(),
                i <= self@.inputs.len(),
                out@ == head + ser_inputs(self@.inputs.take(i as int)),
            decreases self@.inputs.len() - i,
        {
            push_input(&mut out, &self.inputs[i]);
            proof {
                let s = self@.inputs;
                assert(s.take(i as int + 1).drop_last() =~= s.take(i as int));
                assert(out@ =~= head + ser_inputs(s.take(i as int + 1)));
            }
            i = i + 1;
        }
        proof {
            assert(self@.inputs.take(self@.inputs.len() as int) =~= self@.inputs);
        }
        push_u32_be(&mut out, self.outputs.len() as u32);
        let ghost head2 = out@;
        let mut j: usize = 0;
        while j < self.outputs.len()
            invariant
                self@.wf(),
                j <= self@.outputs.len(),
                out@ == head2 + ser_outputs(self@.outputs.take(j as int)),
            decreases self@.outputs.len() - j,
        {
            let o = &self.outputs[j];
            proof {
                assert(o@ == self@.outputs[j as int]);
            }
            push_output(&mut out, o);
            proof {
                let s = self@.outputs;
                assert(s.take(j as int + 1).drop_last() =~= s.take(j as int));
                assert(out@ =~= head2 + ser_outputs(s.take(j as int + 1)));
            }
            j = j + 1;
        }
        proof {
            assert(self@.outputs.take(self@.outputs.len() as int) =~= self@.outputs);
            assert(out@ =~= ser_tx(self@));
        }
        Ok(out)
    }

    /// The byte size the transaction would serialize to once every input
    /// carries a signature: the size model behind fee estimation.
    pub fn estimated_size_bytes(&self) -> (r: u128)
        requires
            self@.wf(),
        ensures
            r == estimated_size(self@),
    {
        let mut acc: u128 = 10 + 101 * (self.inputs.len() as u128);
        let mut j: usize = 0;
        while j < self.outputs.len()
            invariant
                self@.wf(),
                j <= self@.outputs.len(),
                acc == 10 + 101 * self@.inputs.len() + outputs_total_size(
                    self@.outputs.take(j as int),
                ),
                acc <= 10 + 101 * 0x1_0000_0000u128 + (j as u128) * 0x1_0000_000Cu128,
            decreases self@.outputs.len() - j,
        {
            let abytes: &[u8] = self.outputs[j].address.as_str().as_bytes();
            proof {
                assert(abytes@ == encode_utf8(self@.outputs[j as int].address));
            }
            let alen: usize = abytes.len();
            acc = acc + 12 + (alen as u128);
            proof {
                let s = self@.outputs;
                assert(s.take(j as int + 1).drop_last() =~= s.take(j as int));
            }
            j = j + 1;
        }
        proof {
            assert(self@.outputs.take(self@.outputs.len() as int) =~= self@.outputs);
        }
        acc
    }

    /// Estimates the fee for this transaction under the linear model:
    /// `ceil(size * fee_rate / 1000)`, saturated at `u64::MAX`. No
    /// signing is required; the size model already counts every input as
    /// signed.
    pub fn estimate_fee(&self, fee_rate: u64) -> (r: u64)
        requires
            self@.wf(),
        ensures
            r == capped_fee(estimated_size(self@), fee_rate),
    {
        let size = self.estimated_size_bytes();
        let cap: u128 = (u64::MAX as u128) * 1000;
        let prod = match size.checked_mul(fee_rate as u128) {
            Some(p) => p,
            None => {
                proof {
                    lemma_div_is_ordered(
                        (u64::MAX as int) * 1000 + 1000,
                        estimated_size(self@) * fee_rate + 999,
                        1000,
                    );
                }
                return u64::MAX;
            },
        };
        let sum = match prod.checked_add(999) {
            Some(s) => s,
            None => {
                proof {
                    lemma_div_is_ordered(
                        (u64::MAX as int) * 1000 + 1000,
                        estimated_size(self@) * fee_rate + 999,
                        1000,
                    );
                }
                return u64::MAX;
            },
        };
        let f = sum / 1000;
        if f > u64::MAX as u128 {
            u64::MAX
        } else {
            f as u64
        }
    }
}

/// The serialized record of a signed, well-formed input is exactly 101
/// bytes, so a sequence of them serializes to 101 bytes each.
proof fn lemma_ser_inputs_len(s: Seq<TxInputV>)
    requires
        forall|i: int| 0 <= i < s.len() ==> (#[trigger] s[i]).wf() && s[i].signature is Some,
    ensures
        ser_inputs(s).len() == input_record_size() * s.len(),
    decreases s.len(),
{
    if s.len() > 0 {
        lemma_ser_inputs_len(s.drop_last());
        assert(s.last().wf() && s.last().signature is Some);
    }
}

/// The serialized record of an output is its record size, so a sequence
/// of them serializes to the total of their record sizes.
proof fn lemma_ser_outputs_len(s: Seq<TxOutputV>)
    ensures
        ser_outputs(s).len() == outputs_total_size(s),
    decreases s.len(),
{
    if s.len() > 0 {
        lemma_ser_outputs_len(s.drop_last());
    }
}

/// Serializing a fully signed, well-formed transaction yields exactly
/// `estimated_size` bytes: the fee estimate's size model and the real
/// wire format agree.
pub proof fn lemma_serialized_size_matches_estimate(t: TransactionV)
    requires
        t.wf(),
        forall|i: int| 0 <= i < t.inputs.len() ==> (#[trigger] t.inputs[i]).signature is Some,
    ensures
        ser_tx(t).len() == estimated_size(t),
{
    lemma_ser_inputs_len(t.inputs);
    lemma_ser_outputs_len(t.outputs);
}

/// The unsigned input records ignore signatures: two input lists that
/// agree on `txid` and `vout` everywhere write the same bytes.
proof fn lemma_ser_inputs_unsigned_congruence(s1: Seq<TxInputV>, s2: Seq<TxInputV>)
    requires
        s1.len() == s2.len(),
        forall|i: int|
            0 <= i < s1.len() ==> (#[trigger] s1[i]).txid == (#[trigger] s2[i]).txid && s1[i].vout
                == s2[i].vout,
    ensures
        ser_inputs_unsigned(s1) == ser_inputs_unsigned(s2),
    decreases s1.len(),
{
    if s1.len() > 0 {
        lemma_ser_inputs_unsigned_congruence(s1.drop_last(), s2.drop_last());
        assert(s1.last().txid == s2.last().txid && s1.last().vout == s2.last().vout);
        assert(ser_input_unsigned(s1.last()) =~= ser_input_unsigned(s2.last()));
    }
}

/// The signing payload of an input never depends on which inputs already
/// carry signatures: signing in any order binds the same bytes.
pub proof fn lemma_sighash_ignores_signatures(t1: TransactionV, t2: TransactionV, index: int)
    requires
        t1.version == t2.version,
        t1.outputs == t2.outputs,
        t1.inputs.len() == t2.inputs.len(),
        forall|i: int|
            0 <= i < t1.inputs.len() ==> (#[trigger] t1.inputs[i]).txid == (
            #[trigger] t2.inputs[i]).txid && t1.inputs[i].vout == t2.inputs[i].vout,
    ensures
        sighash_bytes(t1, index) == sighash_bytes(t2, index),
{
    lemma_ser_inputs_unsigned_congruence(t1.inputs, t2.inputs);
}

} // verus!
