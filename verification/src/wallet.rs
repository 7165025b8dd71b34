//! The wallet: a key pair bound to a network prefix, producing addresses
//! and fully signed transactions.

use vstd::prelude::*;
use vstd::string::StringSliceAdditionalSpecFns;
use crate::address::{addr_valid, address_of, generate_address, has_no_colon};
use crate::crypto::{is_valid_secret_scalar, pubkey_of, sha256, sha256_of};
use crate::errors::WalletError;
use crate::hexcodec::{encode_hex, hex_chars_of, hex_decoded, is_hex_seq};
use crate::keys::KeyPair;
use crate::transaction::{
    acceptable_output_address, input_signature_of, lemma_sighash_ignores_signatures, valid_txid,
    Transaction, TransactionV, TxInput, TxInputV, TxOutputV, TRANSACTION_VERSION,
};

verus! {

/// Whether every input reference carries a valid 64-hex-character txid.
pub open spec fn all_txids_valid(ins: Seq<(Seq<char>, u32)>) -> bool {
    forall|i: int| 0 <= i < ins.len() ==> valid_txid((#[trigger] ins[i]).0)
}

/// Whether every output destination is an acceptable address.
pub open spec fn all_outputs_acceptable(outs: Seq<(Seq<char>, u64)>) -> bool {
    forall|i: int| 0 <= i < outs.len() ==> acceptable_output_address((#[trigger] outs[i]).0)
}

/// The unsigned transaction built from input references and outputs.
pub open spec fn unsigned_tx_from(
    ins: Seq<(Seq<char>, u32)>,
    outs: Seq<(Seq<char>, u64)>,
) -> TransactionV {
    TransactionV {
        version: TRANSACTION_VERSION,
        inputs: ins.map_values(
            |p: (Seq<char>, u32)| TxInputV { txid: hex_decoded(p.0), vout: p.1, signature: None },
        ),
        outputs: outs.map_values(|p: (Seq<char>, u64)| TxOutputV { address: p.0, amount: p.1 }),
    }
}

/// The same transaction with every input signed under `key`: input `i`
/// carries the signature of its own signing payload, which is computed
/// from the unsigned transaction and so is the same whatever order the
/// inputs were signed in.
pub open spec fn signed_tx_from(
    ins: Seq<(Seq<char>, u32)>,
    outs: Seq<(Seq<char>, u64)>,
    key: Seq<u8>,
) -> TransactionV {
    let base = unsigned_tx_from(ins, outs);
    TransactionV {
        inputs: Seq::new(
            ins.len(),
            |i: int| TxInputV {
                signature: Some(input_signature_of(base, i, key)),
                ..base.inputs[i]
            },
        ),
        ..base
    }
}

/// A key pair bound to the network prefix its addresses carry.
pub struct KaspaWallet {
    keys: KeyPair,
    network_prefix: String,
}

impl KaspaWallet {
    /// The wallet's secret scalar, as a mathematical value.
    pub closed spec fn spec_secret(&self) -> Seq<u8> {
        self.keys.secret_view()
    }

    /// The wallet's network prefix, as a mathematical value.
    pub closed spec fn spec_prefix(&self) -> Seq<char> {
        self.network_prefix@
    }

    /// A wallet on the default network prefix `kaspa` (mainnet).
    pub fn new(keys: KeyPair) -> (r: Result<KaspaWallet, WalletError>)
        ensures
            r matches Ok(w) && w.spec_secret() == keys.secret_view() && w.spec_prefix()
                == "kaspa"@,
    {
        Ok(KaspaWallet { keys, network_prefix: "kaspa".to_owned() })
    }

    /// A wallet on an explicit network prefix.
    pub fn with_network(keys: KeyPair, network: &str) -> (r: Result<KaspaWallet, WalletError>)
        ensures
            r matches Ok(w) && w.spec_secret() == keys.secret_view() && w.spec_prefix()
                == network@,
    {
        Ok(KaspaWallet { keys, network_prefix: network.to_owned() })
    }

    /// A wallet whose secret key is the single SHA-256 of the mnemonic
    /// text, on the default network. This is a placeholder derivation,
    /// not a standard mnemonic scheme; the derivation path is accepted
    /// and ignored. Fails only in the cryptographically negligible case
    /// that the digest is not a valid scalar.
    pub fn from_mnemonic(mnemonic: &str, _derivation_path: &str) -> (r: Result<
        KaspaWallet,
        WalletError,
    >)
        ensures
            is_valid_secret_scalar(sha256_of(mnemonic.spec_bytes())) ==> (r matches Ok(w)
                && w.spec_secret() == sha256_of(mnemonic.spec_bytes()) && w.spec_prefix()
                == "kaspa"@),
            !is_valid_secret_scalar(sha256_of(mnemonic.spec_bytes())) ==> (r matches Err(e) && e
                == WalletError::InvalidSecretKey),
    {
        let seed = sha256(mnemonic.as_bytes());
        let keys = match KeyPair::from_secret_bytes(seed.as_slice()) {
            Ok(k) => k,
            Err(e) => {
                return Err(e);
            },
        };
        KaspaWallet::new(keys)
    }

    /// The wallet's textual address: its public key encoded under its
    /// network prefix. Always succeeds, and validates whenever the
    /// prefix is free of `:`.
    pub fn get_address(&self) -> (r: Result<String, WalletError>)
        ensures
            r matches Ok(s) && s@ == address_of(
                pubkey_of(self.spec_secret()),
                self.spec_prefix(),
            ),
            r matches Ok(s) && (has_no_colon(self.spec_prefix()) ==> addr_valid(s@)),
    {
        let pk = self.keys.public_key_bytes();
        generate_address(pk.as_slice(), self.network_prefix.as_str())
    }

    /// The compressed public key as 66 lowercase hex characters.
    pub fn get_public_key(&self) -> (r: String)
        ensures
            r@ == hex_chars_of(pubkey_of(self.spec_secret())),
    {
        let pk = self.keys.public_key_bytes();
        encode_hex(pk.as_slice())
    }

    /// The secret key as 64 lowercase hex characters.
    pub fn get_private_key(&self) -> (r: String)
        ensures
            r@ == hex_chars_of(self.spec_secret()),
    {
        let sk = self.keys.secret_key_bytes();
        encode_hex(sk.as_slice())
    }

    /// Builds a transaction from input references and outputs, validates
    /// every output address with the address codec, and signs every input
    /// with the wallet's key.
    ///
    /// A malformed txid is reported first, as `InvalidHexEncoding`; then
    /// an output address that fails codec validation (or, a machine
    /// limit, one whose UTF-8 form outgrows its 4-byte length prefix) as
    /// `InvalidOutputAddress`; with everything well-formed the fully
    /// signed transaction is returned. The fee rate plays no part in
    /// construction and is ignored.
    pub fn create_transaction(
        &self,
        inputs: Vec<(String, u32)>,
        outputs: Vec<(String, u64)>,
        _fee_rate: u64,
    ) -> (r: Result<Transaction, WalletError>)
        requires
            inputs@.len() <= u32::MAX,
            outputs@.len() <= u32::MAX,
        ensures
            (r matches Err(e) && e == WalletError::InvalidHexEncoding) <==> !all_txids_valid(
                inputs.deep_view(),
            ),
            all_txids_valid(inputs.deep_view()) ==> ((r matches Err(e) && e
                == WalletError::InvalidOutputAddress) <==> !all_outputs_acceptable(
                outputs.deep_view(),
            )),
            all_txids_valid(inputs.deep_view()) && all_outputs_acceptable(outputs.deep_view())
                ==> (r matches Ok(tx) && tx@ == signed_tx_from(
                inputs.deep_view(),
                outputs.deep_view(),
                self.spec_secret(),
            ) && tx@.wf()),
    {
        let ghost ins = inputs.deep_view();
        let ghost outs = outputs.deep_view();
        let mut tx = Transaction::new();
        let n_in: usize = inputs.len();
        let mut i: usize = 0;
        while i < n_in
            invariant
                inputs@.len() <= u32::MAX,
                n_in == ins.len(),
                i <= n_in,
                ins == inputs.deep_view(),
                tx@.wf(),
                tx@.version == TRANSACTION_VERSION,
                tx@.outputs == Seq::<TxOutputV>::empty(),
                tx@.inputs == ins.take(i as int).map_values(
                    |p: (Seq<char>, u32)| TxInputV { txid: hex_decoded(p.0), vout: p.1, signature: None },
                ),
                forall|j: int| 0 <= j < i ==> valid_txid((#[trigger] ins[j]).0),
            decreases n_in - i,
        {
            let p = &inputs[i];
            proof {
                assert(ins[i as int] == (p.0@, p.1));
            }
            match tx.add_input(p.0.as_str(), p.1) {
                Ok(_) => {},
                Err(e) => {
                    proof {
                        assert(!valid_txid(ins[i as int].0));
                        assert(!all_txids_valid(ins));
                    }
                    return Err(e);
                },
            }
            proof {
                let f = |q: (Seq<char>, u32)| TxInputV {
                    txid: hex_decoded(q.0),
                    vout: q.1,
                    signature: None,
                };
                assert(ins.take(i as int + 1).drop_last() =~= ins.take(i as int));
                assert(ins.take(i as int + 1).last() == ins[i as int]);
                assert(tx@.inputs =~= ins.take(i as int + 1).map_values(f));
            }
            i = i + 1;
        }
        proof {
            assert(ins.take(n_in as int) =~= ins);
        }
        let n_out: usize = outputs.len();
        let mut j: usize = 0;
        while j < n_out
            invariant
                outputs@.len() <= u32::MAX,
                n_out == outs.len(),
                j <= n_out,
                outs == outputs.deep_view(),
                ins == inputs.deep_view(),
                all_txids_valid(ins),
                tx@.wf(),
                tx@.version == TRANSACTION_VERSION,
                tx@.inputs == unsigned_tx_from(ins, outs).inputs,
                tx@.outputs == outs.take(j as int).map_values(
                    |p: (Seq<char>, u64)| TxOutputV { address: p.0, amount: p.1 },
                ),
                forall|k: int| 0 <= k < j ==> acceptable_output_address((#[trigger] outs[k]).0),
            decreases n_out - j,
        {
            let q = &outputs[j];
            proof {
                assert(outs[j as int] == (q.0@, q.1));
            }
            match tx.add_output(q.0.as_str(), q.1) {
                Ok(_) => {},
                Err(e) => {
                    proof {
                        assert(!acceptable_output_address(outs[j as int].0));
                        assert(!all_outputs_acceptable(outs));
                    }
                    return Err(e);
                },
            }
            proof {
                let g = |q: (Seq<char>, u64)| TxOutputV { address: q.0, amount: q.1 };
                assert(outs.take(j as int + 1).drop_last() =~= outs.take(j as int));
                assert(outs.take(j as int + 1).last() == outs[j as int]);
                assert(tx@.outputs =~= outs.take(j as int + 1).map_values(g));
            }
            j = j + 1;
        }
        proof {
            assert(outs.take(n_out as int) =~= outs);
            assert(tx@ =~= unsigned_tx_from(ins, outs));
        }
        let ghost base = unsigned_tx_from(ins, outs);
        let n: usize = inputs.len();
        proof {
            assert(tx@.inputs.len() == n);
        }
        let mut s: usize = 0;
        while s < n
            invariant
                s <= n,
                ins == inputs.deep_view(),
                outs == outputs.deep_view(),
                all_txids_valid(ins),
                all_outputs_acceptable(outs),
                base == unsigned_tx_from(ins, outs),
                n == base.inputs.len(),
                tx@.wf(),
                tx@.version == base.version,
                tx@.outputs == base.outputs,
                tx@.inputs.len() == n,
                forall|k: int|
                    0 <= k < n ==> (#[trigger] tx@.inputs[k]).txid == base.inputs[k].txid
                        && tx@.inputs[k].vout == base.inputs[k].vout,
                forall|k: int|
                    0 <= k < s ==> (#[trigger] tx@.inputs[k]).signature == Some(
                        input_signature_of(base, k, self.spec_secret()),
                    ),
            decreases n - s,
        {
            let ghost before = tx@;
            match tx.sign_input(s, &self.keys) {
                Ok(_) => {},
                Err(_) => {
                    proof {
                        assert(false);
                    }
                },
            }
            proof {
                lemma_sighash_ignores_signatures(before, base, s as int);
            }
            s = s + 1;
        }
        proof {
            let signed = signed_tx_from(ins, outs, self.spec_secret());
            assert forall|k: int| 0 <= k < n implies tx@.inputs[k] == signed.inputs[k] by {
                assert(tx@.inputs[k].signature == Some(
                    input_signature_of(base, k, self.spec_secret()),
                ));
                assert(tx@.inputs[k] =~= signed.inputs[k]);
            }
            assert(tx@.inputs =~= signed.inputs);
            assert(tx@ =~= signed);
        }
        Ok(tx)
    }

    /// Estimates the fee of a transaction with the given counts of
    /// placeholder inputs and outputs under the linear model: the size is
    /// `10 + 101 * input_count + 12 * output_count` bytes (each input
    /// counted as signed, each output with an empty placeholder address),
    /// and the fee is `ceil(size * fee_rate / 1000)`, saturated at
    /// `u64::MAX`.
    pub fn estimate_transaction_fee(
        &self,
        input_count: usize,
        output_count: usize,
        fee_rate: u64,
    ) -> (r: u64)
        requires
            input_count <= u32::MAX,
            output_count <= u32::MAX,
        ensures
            r == crate::transaction::capped_fee(
                10 + 101 * input_count + 12 * output_count,
                fee_rate,
            ),
    {
        let mut tx = Transaction::new();
        let mut i: usize = 0;
        while i < input_count
            invariant
                input_count <= u32::MAX,
                i <= input_count,
                tx@.wf(),
                tx@.inputs.len() == i,
                tx@.outputs.len() == 0,
            decreases input_count - i,
        {
            let mut txid: Vec<u8> = Vec::new();
            let mut z: usize = 0;
            while z < 32
                invariant
                    z <= 32,
                    txid@.len() == z,
                decreases 32 - z,
            {
                txid.push(0);
                z = z + 1;
            }
            let ghost old_inputs = tx@.inputs;
            tx.inputs.push(TxInput { txid, vout: 0, signature: None });
            proof {
                assert forall|k: int|
                    0 <= k < tx@.inputs.len() implies (#[trigger] tx@.inputs[k]).wf() by {
                    if k < old_inputs.len() {
                        assert(tx@.inputs[k] == old_inputs[k]);
                    } else {
                        assert(tx@.inputs[k].txid.len() == 32);
                    }
                }
            }
            i = i + 1;
        }
        let mut j: usize = 0;
        while j < output_count
            invariant
                output_count <= u32::MAX,
                j <= output_count,
                tx@.wf(),
                tx@.inputs.len() == input_count,
                tx@.outputs.len() == j,
                crate::transaction::outputs_total_size(tx@.outputs) == 12 * j,
            decreases output_count - j,
        {
            let ghost old_outputs = tx@.outputs;
            tx.add_placeholder_output(0);
            proof {
                assert(tx@.outputs.drop_last() =~= old_outputs);
            }
            j = j + 1;
        }
        proof {
            assert(crate::transaction::estimated_size(tx@) == 10 + 101 * input_count + 12
                * output_count);
        }
        tx.estimate_fee(fee_rate)
    }

    /// Whether hex text denotes a usable secret key: 64 hex characters
    /// whose 32 bytes form a valid scalar. Total: every string maps to
    /// `true` or `false`.
    pub fn validate_private_key(private_key_hex: &str) -> (r: Result<bool, WalletError>)
        ensures
            r matches Ok(b) && b == (is_hex_seq(private_key_hex@) && private_key_hex@.len() == 64
                && is_valid_secret_scalar(hex_decoded(private_key_hex@))),
    {
        let bytes = match crate::hexcodec::decode_hex(private_key_hex) {
            Ok(b) => b,
            Err(_) => {
                return Ok(false);
            },
        };
        if bytes.len() != 32 {
            return Ok(false);
        }
        Ok(crate::crypto::secret_scalar_ok(bytes.as_slice()))
    }
}

} // verus!
