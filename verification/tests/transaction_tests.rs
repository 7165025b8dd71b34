//! Tests of the transaction model: the wire format, signing, fee
//! estimation, and the documented failure cases.

use kaspa_wallet::errors::WalletError;
use kaspa_wallet::keys::KeyPair;
use kaspa_wallet::transaction::Transaction;
use kaspa_wallet::wallet::KaspaWallet;
use sha2::Digest;

const TXID: &str = "0123456789abcdef0123456789abcdef0123456789abcdef0123456789abcdef";

fn secret_one() -> Vec<u8> {
    let mut sk = vec![0u8; 32];
    sk[31] = 1;
    sk
}

fn wallet_one() -> KaspaWallet {
    let kp = KeyPair::from_secret_bytes(&secret_one()).unwrap();
    KaspaWallet::new(kp).unwrap()
}

#[test]
fn test_empty_transaction_serialization() {
    let tx = Transaction::new();
    // Version 1 big-endian, zero inputs, zero outputs.
    assert_eq!(
        tx.serialize().unwrap(),
        vec![0x00, 0x01, 0, 0, 0, 0, 0, 0, 0, 0]
    );
}

#[test]
fn test_add_input_validates_txid() {
    let mut tx = Transaction::new();
    assert_eq!(
        tx.add_input("not-hex", 0),
        Err(WalletError::InvalidHexEncoding)
    );
    assert_eq!(
        tx.add_input("abcd", 0), // valid hex, wrong length
        Err(WalletError::InvalidHexEncoding)
    );
    assert_eq!(tx.inputs.len(), 0);
    assert!(tx.add_input(TXID, 3).is_ok());
    assert_eq!(tx.inputs.len(), 1);
    assert_eq!(tx.inputs[0].vout, 3);
    assert!(tx.inputs[0].signature.is_none());
}

#[test]
fn test_add_output_rejects_invalid_address() {
    let mut tx = Transaction::new();
    assert_eq!(
        tx.add_output("not-an-address", 5),
        Err(WalletError::InvalidOutputAddress)
    );
    assert_eq!(tx.outputs.len(), 0, "rejected output must never be admitted");
    let address = wallet_one().get_address().unwrap();
    assert!(tx.add_output(&address, 5).is_ok());
    assert_eq!(tx.outputs.len(), 1);
    assert_eq!(tx.outputs[0].amount, 5);
}

#[test]
fn test_sign_input_out_of_range_leaves_transaction_unmodified() {
    let wallet = wallet_one();
    let kp = KeyPair::from_secret_bytes(&secret_one()).unwrap();
    let address = wallet.get_address().unwrap();
    let mut tx = Transaction::new();
    tx.add_input(TXID, 0).unwrap();
    tx.add_output(&address, 1000).unwrap();
    let before = tx.serialize().unwrap();
    assert_eq!(tx.sign_input(1, &kp), Err(WalletError::IndexOutOfRange));
    assert_eq!(tx.sign_input(7, &kp), Err(WalletError::IndexOutOfRange));
    assert_eq!(tx.serialize().unwrap(), before);
    assert!(tx.inputs[0].signature.is_none());
}

#[test]
fn test_signature_is_valid_and_deterministic() {
    let wallet = wallet_one();
    let address = wallet.get_address().unwrap();
    let tx = wallet
        .create_transaction(vec![(TXID.to_string(), 0)], vec![(address, 1000)], 1000)
        .unwrap();
    let sig_bytes = tx.inputs[0].signature.clone().expect("input must be signed");
    assert_eq!(sig_bytes.len(), 64);

    // The signature binds the SHA-256 of the documented signing payload
    // under the wallet's key.
    let payload = tx.signing_payload(0).unwrap();
    let digest: [u8; 32] = sha2::Sha256::digest(&payload).into();
    let msg = secp256k1::Message::from_digest(digest);
    let sig = secp256k1::ecdsa::Signature::from_compact(&sig_bytes).unwrap();
    let mut arr = [0u8; 32];
    arr.copy_from_slice(&secret_one());
    let sk = secp256k1::SecretKey::from_secret_bytes(arr).unwrap();
    let pk = secp256k1::PublicKey::from_secret_key(&sk);
    assert!(secp256k1::ecdsa::verify(&sig, msg, &pk).is_ok());

    // RFC 6979 signing is deterministic: rebuilding the transaction
    // reproduces the same bytes.
    let wallet2 = wallet_one();
    let address2 = wallet2.get_address().unwrap();
    let tx2 = wallet2
        .create_transaction(vec![(TXID.to_string(), 0)], vec![(address2, 1000)], 1000)
        .unwrap();
    assert_eq!(tx2.inputs[0].signature.clone().unwrap(), sig_bytes);
}

#[test]
fn test_serialized_length_matches_size_model() {
    // A fully signed transaction serializes to exactly the byte count
    // the fee estimate is computed from, so with a rate of 1000 per
    // kilobyte-equivalent the fee equals the serialized length.
    let wallet = wallet_one();
    let address = wallet.get_address().unwrap();
    let tx = wallet
        .create_transaction(
            vec![(TXID.to_string(), 0), (TXID.to_string(), 1)],
            vec![(address.clone(), 700), (address, 42)],
            1000,
        )
        .unwrap();
    let serialized = tx.serialize().unwrap();
    assert_eq!(tx.estimated_size_bytes(), serialized.len() as u128);
    assert_eq!(tx.estimate_fee(1000), serialized.len() as u64);
}

#[test]
fn test_estimate_fee_rounds_up() {
    let mut tx = Transaction::new();
    tx.add_input(TXID, 0).unwrap();
    // Size of one unsigned-placeholder transaction with one input:
    // 2 + 4 + 101 + 4 = 111 bytes.
    assert_eq!(tx.estimated_size_bytes(), 111);
    // ceil(111 * 1 / 1000) = 1; ceil(111 * 999 / 1000) = 111; exact at 1000.
    assert_eq!(tx.estimate_fee(1), 1);
    assert_eq!(tx.estimate_fee(999), 111);
    assert_eq!(tx.estimate_fee(1000), 111);
    assert_eq!(tx.estimate_fee(0), 0);
}

#[test]
fn test_estimate_transaction_fee_formula() {
    // 2 inputs and 3 outputs: 10 + 2 * 101 + 3 * 12 = 248 bytes, and a
    // rate of 1000 per kilobyte-equivalent makes the fee the size itself.
    let wallet = wallet_one();
    assert_eq!(wallet.estimate_transaction_fee(2, 3, 1000), 248);
    assert_eq!(wallet.estimate_transaction_fee(0, 0, 1000), 10);
    // ceil(248 * 1500 / 1000) = 372.
    assert_eq!(wallet.estimate_transaction_fee(2, 3, 1500), 372);
    // ceil(248 * (2^64 - 1) / 1000), still inside u64.
    assert_eq!(
        wallet.estimate_transaction_fee(2, 3, u64::MAX),
        4574792530279968801
    );
}

#[test]
fn test_create_transaction_rejects_bad_destinations() {
    let wallet = wallet_one();
    let r = wallet.create_transaction(
        vec![(TXID.to_string(), 0)],
        vec![("not-an-address".to_string(), 5)],
        1000,
    );
    assert_eq!(r.err(), Some(WalletError::InvalidOutputAddress));
    let r = wallet.create_transaction(vec![("bogus".to_string(), 0)], vec![], 1000);
    assert_eq!(r.err(), Some(WalletError::InvalidHexEncoding));
}

#[test]
fn test_wire_format_layout() {
    let wallet = wallet_one();
    let address = wallet.get_address().unwrap();
    let tx = wallet
        .create_transaction(
            vec![(TXID.to_string(), 7)],
            vec![(address.clone(), 0x01020304050607u64)],
            1000,
        )
        .unwrap();
    let bytes = tx.serialize().unwrap();
    // Version.
    assert_eq!(&bytes[0..2], &[0x00, 0x01]);
    // Input count, then the txid bytes.
    assert_eq!(&bytes[2..6], &[0, 0, 0, 1]);
    assert_eq!(&bytes[6..38], &hex_to_bytes(TXID)[..]);
    // vout, presence flag.
    assert_eq!(&bytes[38..42], &[0, 0, 0, 7]);
    assert_eq!(bytes[42], 1);
    // 64 signature bytes, then the output count.
    assert_eq!(&bytes[107..111], &[0, 0, 0, 1]);
    // Address byte-length prefix and the address's UTF-8 bytes.
    let alen = address.len() as u32;
    assert_eq!(&bytes[111..115], &alen.to_be_bytes());
    assert_eq!(&bytes[115..115 + address.len()], address.as_bytes());
    // The amount closes the record.
    let tail = &bytes[115 + address.len()..];
    assert_eq!(tail, &[0x00, 0x01, 0x02, 0x03, 0x04, 0x05, 0x06, 0x07]);
    assert_eq!(bytes.len(), 115 + address.len() + 8);
}

fn hex_to_bytes(s: &str) -> Vec<u8> {
    // A small local hex decoder so the wire-format check does not lean on
    // the library function it is checking against.
    s.as_bytes()
        .chunks(2)
        .map(|p| {
            let hi = (p[0] as char).to_digit(16).unwrap() as u8;
            let lo = (p[1] as char).to_digit(16).unwrap() as u8;
            16 * hi + lo
        })
        .collect()
}

#[test]
fn test_validated_address_is_always_admitted() {
    // Admission into the output list is exactly codec validation: an
    // address under a non-ASCII network prefix that validates must be
    // accepted, and its record carries the UTF-8 byte length.
    let kp = KeyPair::from_secret_bytes(&secret_one()).unwrap();
    let wallet = KaspaWallet::with_network(kp, "kaspä").unwrap();
    let address = wallet.get_address().unwrap();
    assert!(kaspa_wallet::address::validate_address(&address).unwrap());

    let mut tx = Transaction::new();
    assert!(tx.add_output(&address, 9).is_ok());
    assert_eq!(tx.outputs.len(), 1);

    let tx2 = wallet
        .create_transaction(vec![(TXID.to_string(), 0)], vec![(address.clone(), 9)], 1000)
        .unwrap();
    assert!(tx2.inputs[0].signature.is_some());

    let bytes = tx.serialize().unwrap();
    let alen = address.len() as u32; // byte length: the prefix is 6 bytes for 5 chars
    assert_ne!(address.len(), address.chars().count());
    assert_eq!(&bytes[10..14], &alen.to_be_bytes());
    assert_eq!(&bytes[14..14 + address.len()], address.as_bytes());
    // With no inputs, the size model is exactly the serialized length.
    assert_eq!(tx.estimated_size_bytes(), bytes.len() as u128);
}
