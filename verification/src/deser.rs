//! The wire format read back: a parser for the serialized transaction
//! layout, stated in the mathematical model, with a proof that it
//! reconstructs every well-formed transaction from its own serialization.
//! The format is thereby fully reversible: byte order and field widths
//! carry the whole logical transaction.

use vstd::prelude::*;
use vstd::utf8::{decode_utf8, encode_utf8, encode_utf8_decode_utf8};
use crate::transaction::{
    ser_input, ser_inputs, ser_output, ser_outputs, ser_tx, u16_be, u32_be, u64_be, TransactionV,
    TxInputV, TxOutputV,
};

verus! {

/// The `u16` read back from two big-endian bytes.
pub open spec fn be16_val(b: Seq<u8>) -> u16
    recommends
        b.len() == 2,
{
    ((b[0] as u16) << 8) | (b[1] as u16)
}

/// The `u32` read back from four big-endian bytes.
pub open spec fn be32_val(b: Seq<u8>) -> u32
    recommends
        b.len() == 4,
{
    ((b[0] as u32) << 24) | ((b[1] as u32) << 16) | ((b[2] as u32) << 8) | (b[3] as u32)
}

/// The `u64` read back from eight big-endian bytes.
pub open spec fn be64_val(b: Seq<u8>) -> u64
    recommends
        b.len() == 8,
{
    ((b[0] as u64) << 56) | ((b[1] as u64) << 48) | ((b[2] as u64) << 40) | ((b[3] as u64) << 32)
        | ((b[4] as u64) << 24) | ((b[5] as u64) << 16) | ((b[6] as u64) << 8) | (b[7] as u64)
}

/// One input record read from the front of `b`: 32 txid bytes, the vout,
/// a presence flag, and 64 signature bytes when the flag is 1.
pub open spec fn parse_input(b: Seq<u8>) -> Option<(TxInputV, Seq<u8>)> {
    if b.len() < 37 {
        None
    } else {
        let txid = b.take(32);
        let vout = be32_val(b.subrange(32, 36));
        if b[36] == 1 {
            if b.len() < 101 {
                None
            } else {
                Some(
                    (
                        TxInputV { txid, vout, signature: Some(b.subrange(37, 101)) },
                        b.skip(101),
                    ),
                )
            }
        } else if b[36] == 0 {
            Some((TxInputV { txid, vout, signature: None }, b.skip(37)))
        } else {
            None
        }
    }
}

/// `n` input records read from the front of `b`.
pub open spec fn parse_inputs(b: Seq<u8>, n: nat) -> Option<(Seq<TxInputV>, Seq<u8>)>
    decreases n,
{
    if n == 0 {
        Some((Seq::empty(), b))
    } else {
        match parse_input(b) {
            None => None,
            Some((i, rest)) => match parse_inputs(rest, (n - 1) as nat) {
                None => None,
                Some((s, rest2)) => Some((seq![i] + s, rest2)),
            },
        }
    }
}

/// One output record read from the front of `b`: a 4-byte address byte
/// count, that many UTF-8 address bytes, and the 8-byte amount.
pub open spec fn parse_output(b: Seq<u8>) -> Option<(TxOutputV, Seq<u8>)> {
    if b.len() < 4 {
        None
    } else {
        let alen = be32_val(b.take(4)) as int;
        if b.len() < 12 + alen {
            None
        } else {
            let address = decode_utf8(b.subrange(4, 4 + alen));
            let amount = be64_val(b.subrange(4 + alen, 12 + alen));
            Some((TxOutputV { address, amount }, b.skip(12 + alen)))
        }
    }
}

/// `n` output records read from the front of `b`.
pub open spec fn parse_outputs(b: Seq<u8>, n: nat) -> Option<(Seq<TxOutputV>, Seq<u8>)>
    decreases n,
{
    if n == 0 {
        Some((Seq::empty(), b))
    } else {
        match parse_output(b) {
            None => None,
            Some((o, rest)) => match parse_outputs(rest, (n - 1) as nat) {
                None => None,
                Some((s, rest2)) => Some((seq![o] + s, rest2)),
            },
        }
    }
}

/// A whole transaction read back from its serialization: the version,
/// the counted input records, the counted output records, and nothing
/// left over.
pub open spec fn parse_tx(b: Seq<u8>) -> Option<TransactionV> {
    if b.len() < 6 {
        None
    } else {
        let version = be16_val(b.take(2));
        let n_in = be32_val(b.subrange(2, 6));
        match parse_inputs(b.skip(6), n_in as nat) {
            None => None,
            Some((inputs, rest)) => {
                if rest.len() < 4 {
                    None
                } else {
                    let n_out = be32_val(rest.take(4));
                    match parse_outputs(rest.skip(4), n_out as nat) {
                        None => None,
                        Some((outputs, rest2)) => {
                            if rest2.len() == 0 {
                                Some(TransactionV { version, inputs, outputs })
                            } else {
                                None
                            }
                        },
                    }
                }
            },
        }
    }
}

proof fn lemma_be16_round(x: u16)
    ensures
        be16_val(u16_be(x)) == x,
{
    assert((((((x >> 8) as u8) as u16) << 8) | ((x as u8) as u16)) == x) by (bit_vector);
}

proof fn lemma_be32_round(x: u32)
    ensures
        be32_val(u32_be(x)) == x,
{
    assert((((((x >> 24) as u8) as u32) << 24) | ((((x >> 16) as u8) as u32) << 16) | ((((x >> 8)
        as u8) as u32) << 8) | ((x as u8) as u32)) == x) by (bit_vector);
}

proof fn lemma_be64_round(x: u64)
    ensures
        be64_val(u64_be(x)) == x,
{
    assert((((((x >> 56) as u8) as u64) << 56) | ((((x >> 48) as u8) as u64) << 48) | ((((x >> 40)
        as u8) as u64) << 40) | ((((x >> 32) as u8) as u64) << 32) | ((((x >> 24) as u8) as u64)
        << 24) | ((((x >> 16) as u8) as u64) << 16) | ((((x >> 8) as u8) as u64) << 8) | ((x
        as u8) as u64)) == x) by (bit_vector);
}

/// The right-fold serialization of inputs, peeled from the left.
proof fn lemma_ser_inputs_cons(s: Seq<TxInputV>)
    requires
        s.len() > 0,
    ensures
        ser_inputs(s) == ser_input(s[0]) + ser_inputs(s.drop_first()),
    decreases s.len(),
{
    if s.len() == 1 {
        assert(s.drop_last() =~= Seq::<TxInputV>::empty());
        assert(s.drop_first() =~= Seq::<TxInputV>::empty());
        assert(ser_inputs(s) =~= ser_input(s[0]) + ser_inputs(s.drop_first()));
    } else {
        let t = s.drop_last();
        lemma_ser_inputs_cons(t);
        assert(t[0] == s[0]);
        assert(t.drop_first() =~= s.drop_first().drop_last());
        assert(s.drop_first().last() == s.last());
        assert(ser_inputs(s.drop_first()) == ser_inputs(s.drop_first().drop_last()) + ser_input(
            s.drop_first().last(),
        ));
        assert(ser_inputs(s) =~= ser_input(s[0]) + ser_inputs(s.drop_first()));
    }
}

/// The right-fold serialization of outputs, peeled from the left.
proof fn lemma_ser_outputs_cons(s: Seq<TxOutputV>)
    requires
        s.len() > 0,
    ensures
        ser_outputs(s) == ser_output(s[0]) + ser_outputs(s.drop_first()),
    decreases s.len(),
{
    if s.len() == 1 {
        assert(s.drop_last() =~= Seq::<TxOutputV>::empty());
        assert(s.drop_first() =~= Seq::<TxOutputV>::empty());
        assert(ser_outputs(s) =~= ser_output(s[0]) + ser_outputs(s.drop_first()));
    } else {
        let t = s.drop_last();
        lemma_ser_outputs_cons(t);
        assert(t[0] == s[0]);
        assert(t.drop_first() =~= s.drop_first().drop_last());
        assert(s.drop_first().last() == s.last());
        assert(ser_outputs(s.drop_first()) == ser_outputs(s.drop_first().drop_last()) + ser_output(
            s.drop_first().last(),
        ));
        assert(ser_outputs(s) =~= ser_output(s[0]) + ser_outputs(s.drop_first()));
    }
}

/// One well-formed input record parses back from its own bytes, leaving
/// whatever followed them untouched.
proof fn lemma_parse_input_round(i: TxInputV, rest: Seq<u8>)
    requires
        i.wf(),
    ensures
        parse_input(ser_input(i) + rest) == Some((i, rest)),
{
    let b = ser_input(i) + rest;
    lemma_be32_round(i.vout);
    match i.signature {
        Some(sig) => {
            assert(ser_input(i).len() == 101);
            assert(b.take(32) =~= i.txid);
            assert(b.subrange(32, 36) =~= u32_be(i.vout));
            assert(b[36] == 1u8);
            assert(b.subrange(37, 101) =~= sig);
            assert(b.skip(101) =~= rest);
            assert((TxInputV {
                txid: b.take(32),
                vout: be32_val(b.subrange(32, 36)),
                signature: Some(b.subrange(37, 101)),
            }) =~= i);
        },
        None => {
            assert(ser_input(i).len() == 37);
            assert(b.take(32) =~= i.txid);
            assert(b.subrange(32, 36) =~= u32_be(i.vout));
            assert(b[36] == 0u8);
            assert(b.skip(37) =~= rest);
            assert((TxInputV {
                txid: b.take(32),
                vout: be32_val(b.subrange(32, 36)),
                signature: None,
            }) =~= i);
        },
    }
}

/// A list of well-formed input records parses back from its own bytes.
proof fn lemma_parse_inputs_round(s: Seq<TxInputV>, rest: Seq<u8>)
    requires
        forall|k: int| 0 <= k < s.len() ==> (#[trigger] s[k]).wf(),
    ensures
        parse_inputs(ser_inputs(s) + rest, s.len()) == Some((s, rest)),
    decreases s.len(),
{
    if s.len() == 0 {
        assert(ser_inputs(s) + rest =~= rest);
        assert(Seq::<TxInputV>::empty() =~= s);
    } else {
        lemma_ser_inputs_cons(s);
        let tail_bytes = ser_inputs(s.drop_first()) + rest;
        assert(ser_inputs(s) + rest =~= ser_input(s[0]) + tail_bytes);
        lemma_parse_input_round(s[0], tail_bytes);
        assert(forall|k: int|
            0 <= k < s.drop_first().len() ==> (#[trigger] s.drop_first()[k]).wf());
        lemma_parse_inputs_round(s.drop_first(), rest);
        assert(seq![s[0]] + s.drop_first() =~= s);
    }
}

/// One well-formed output record parses back from its own bytes.
proof fn lemma_parse_output_round(o: TxOutputV, rest: Seq<u8>)
    requires
        o.wf(),
    ensures
        parse_output(ser_output(o) + rest) == Some((o, rest)),
{
    let b = ser_output(o) + rest;
    let ebytes = encode_utf8(o.address);
    let alen = ebytes.len() as int;
    assert(ser_output(o).len() == 12 + alen);
    lemma_be32_round(ebytes.len() as u32);
    lemma_be64_round(o.amount);
    assert(b.take(4) =~= u32_be(ebytes.len() as u32));
    assert(be32_val(b.take(4)) as int == alen);
    assert(b.subrange(4, 4 + alen) =~= ebytes);
    encode_utf8_decode_utf8(o.address);
    assert(decode_utf8(b.subrange(4, 4 + alen)) == o.address);
    assert(b.subrange(4 + alen, 12 + alen) =~= u64_be(o.amount));
    assert(b.skip(12 + alen) =~= rest);
    assert((TxOutputV {
        address: decode_utf8(b.subrange(4, 4 + alen)),
        amount: be64_val(b.subrange(4 + alen, 12 + alen)),
    }) =~= o);
}

/// A list of well-formed output records parses back from its own bytes.
proof fn lemma_parse_outputs_round(s: Seq<TxOutputV>, rest: Seq<u8>)
    requires
        forall|k: int| 0 <= k < s.len() ==> (#[trigger] s[k]).wf(),
    ensures
        parse_outputs(ser_outputs(s) + rest, s.len()) == Some((s, rest)),
    decreases s.len(),
{
    if s.len() == 0 {
        assert(ser_outputs(s) + rest =~= rest);
        assert(Seq::<TxOutputV>::empty() =~= s);
    } else {
        lemma_ser_outputs_cons(s);
        let tail_bytes = ser_outputs(s.drop_first()) + rest;
        assert(ser_outputs(s) + rest =~= ser_output(s[0]) + tail_bytes);
        lemma_parse_output_round(s[0], tail_bytes);
        assert(forall|k: int|
            0 <= k < s.drop_first().len() ==> (#[trigger] s.drop_first()[k]).wf());
        lemma_parse_outputs_round(s.drop_first(), rest);
        assert(seq![s[0]] + s.drop_first() =~= s);
    }
}

/// Serialization loses nothing: parsing the serialized bytes of any
/// well-formed transaction reconstructs the same logical transaction.
pub proof fn lemma_wire_format_reversible(t: TransactionV)
    requires
        t.wf(),
    ensures
        parse_tx(ser_tx(t)) == Some(t),
{
    let b = ser_tx(t);
    lemma_be16_round(t.version);
    lemma_be32_round(t.inputs.len() as u32);
    lemma_be32_round(t.outputs.len() as u32);
    assert(b.take(2) =~= u16_be(t.version));
    assert(b.subrange(2, 6) =~= u32_be(t.inputs.len() as u32));
    let after_outputs_count = ser_outputs(t.outputs);
    let after_inputs = u32_be(t.outputs.len() as u32) + after_outputs_count;
    assert(b.skip(6) =~= ser_inputs(t.inputs) + after_inputs);
    lemma_parse_inputs_round(t.inputs, after_inputs);
    assert(after_inputs.take(4) =~= u32_be(t.outputs.len() as u32));
    assert(after_inputs.skip(4) =~= ser_outputs(t.outputs) + Seq::<u8>::empty());
    lemma_parse_outputs_round(t.outputs, Seq::empty());
    assert((TransactionV {
        version: be16_val(b.take(2)),
        inputs: t.inputs,
        outputs: t.outputs,
    }) =~= t);
}

} // verus!
