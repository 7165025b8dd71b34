//! Tests of the address codec: encode/validate round trips, tamper
//! detection, and total handling of malformed input.

use kaspa_wallet::address::{decode_address, generate_address, validate_address};
use kaspa_wallet::errors::WalletError;
use kaspa_wallet::keys::KeyPair;
use kaspa_wallet::wallet::KaspaWallet;

fn secret_one() -> Vec<u8> {
    let mut sk = vec![0u8; 32];
    sk[31] = 1;
    sk
}

fn wallet_one() -> KaspaWallet {
    let kp = KeyPair::from_secret_bytes(&secret_one()).unwrap();
    KaspaWallet::new(kp).unwrap()
}

#[test]
fn test_key_one_golden_address() {
    // The compressed public key of the scalar 1 is the generator point;
    // its hash160 payload under version byte 0x00 is a pinned value.
    let wallet = wallet_one();
    assert_eq!(
        wallet.get_public_key(),
        "0279be667ef9dcbbac55a06295ce870b07029bfcdb2dce28d959f2815b16f81798"
    );
    assert_eq!(
        wallet.get_private_key(),
        "0000000000000000000000000000000000000000000000000000000000000001"
    );
    assert_eq!(
        wallet.get_address().unwrap(),
        "kaspa:1BgGZ9tcN4rm9KBzDn7KprQz87SZ26SAMH"
    );
}

#[test]
fn test_encode_validate_round_trip() {
    let wallet = wallet_one();
    let address = wallet.get_address().unwrap();
    assert!(validate_address(&address).unwrap());

    let kp = KeyPair::from_secret_bytes(&secret_one()).unwrap();
    let testnet = KaspaWallet::with_network(kp, "kaspatest").unwrap();
    let address2 = testnet.get_address().unwrap();
    assert!(address2.starts_with("kaspatest:"));
    assert!(validate_address(&address2).unwrap());
}

#[test]
fn test_generate_address_deterministic() {
    let wallet = wallet_one();
    let kp = KeyPair::from_secret_bytes(&secret_one()).unwrap();
    let pk = kp.public_key_bytes();
    let a1 = generate_address(&pk, "kaspa").unwrap();
    let a2 = generate_address(&pk, "kaspa").unwrap();
    assert_eq!(a1, a2);
    assert_eq!(a1, wallet.get_address().unwrap());
}

#[test]
fn test_single_byte_flip_fails_validation() {
    let wallet = wallet_one();
    let address = wallet.get_address().unwrap();
    let suffix = address.split(':').nth(1).unwrap();
    let decoded = bs58::decode(suffix).into_vec().unwrap();
    assert_eq!(decoded.len(), 25);
    for i in 0..decoded.len() {
        let mut tampered = decoded.clone();
        tampered[i] ^= 0x01;
        let readdr = format!("kaspa:{}", bs58::encode(&tampered).into_string());
        assert!(
            !validate_address(&readdr).unwrap(),
            "flip of byte {} was not caught",
            i
        );
    }
}

#[test]
fn test_malformed_addresses_are_false_not_errors() {
    // Every malformed case resolves to Ok(false): no panic, no error.
    assert!(!validate_address("").unwrap());
    assert!(!validate_address("no-delimiter-here").unwrap());
    assert!(!validate_address("kaspa:abc:def").unwrap());
    assert!(!validate_address("kaspa:0OIl").unwrap()); // not base58
    assert!(!validate_address("kaspa:2").unwrap()); // decodes to one byte
    assert!(!validate_address(":").unwrap());
    assert!(!validate_address("kaspa:").unwrap());
}

#[test]
fn test_decode_address_error_kinds() {
    match decode_address("no-delimiter-here") {
        Err(WalletError::InvalidAddressStructure) => {}
        other => panic!("unexpected result: {:?}", other),
    }
    match decode_address("kaspa:0OIl") {
        Err(WalletError::InvalidAddressStructure) => {}
        other => panic!("unexpected result: {:?}", other),
    }
    // A checksum failure is reported distinctly: flip one payload byte.
    let wallet = wallet_one();
    let address = wallet.get_address().unwrap();
    let suffix = address.split(':').nth(1).unwrap();
    let mut decoded = bs58::decode(suffix).into_vec().unwrap();
    decoded[5] ^= 0xff;
    let tampered = format!("kaspa:{}", bs58::encode(&decoded).into_string());
    match decode_address(&tampered) {
        Err(WalletError::ChecksumMismatch) => {}
        other => panic!("unexpected result: {:?}", other),
    }
    // A good address decodes to its 21 payload bytes, version byte first.
    let payload = decode_address(&address).unwrap();
    assert_eq!(payload.len(), 21);
    assert_eq!(payload[0], 0x00);
}
