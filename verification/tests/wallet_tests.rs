//! Tests of wallet construction, key handling, hex boundaries, and the
//! state types of the graphical shell.

use kaspa_wallet::errors::WalletError;
use kaspa_wallet::gui_state::{NetworkOption, Tab, WalletGui};
use kaspa_wallet::hexcodec::{decode_hex, encode_hex};
use kaspa_wallet::keys::{generate_keypair, KeyPair};
use kaspa_wallet::wallet::KaspaWallet;
use sha2::Digest;

#[test]
fn test_wallet_creation() {
    let keys = generate_keypair().unwrap();
    let wallet = KaspaWallet::new(keys);
    assert!(wallet.is_ok());
}

#[test]
fn test_address_generation() {
    let keys = generate_keypair().unwrap();
    let wallet = KaspaWallet::new(keys).unwrap();
    let address = wallet.get_address();
    assert!(address.is_ok());

    let addr_str = address.unwrap();
    assert!(addr_str.starts_with("kaspa:"));
}

#[test]
fn test_generated_keys_differ() {
    let k1 = generate_keypair().unwrap();
    let k2 = generate_keypair().unwrap();
    assert_ne!(k1.secret_key_bytes(), k2.secret_key_bytes());
}

#[test]
fn test_keypair_rejects_bad_secrets() {
    assert_eq!(
        KeyPair::from_secret_bytes(&[1u8; 31]).err(),
        Some(WalletError::InvalidKeyLength)
    );
    assert_eq!(
        KeyPair::from_secret_bytes(&[1u8; 33]).err(),
        Some(WalletError::InvalidKeyLength)
    );
    assert_eq!(
        KeyPair::from_secret_bytes(&[0u8; 32]).err(),
        Some(WalletError::InvalidSecretKey)
    );
    // A value at or above the curve order is out of range.
    assert_eq!(
        KeyPair::from_secret_bytes(&[0xff; 32]).err(),
        Some(WalletError::InvalidSecretKey)
    );
    assert!(KeyPair::from_secret_bytes(&[0xcd; 32]).is_ok());
}

#[test]
fn test_hex_round_trip() {
    assert_eq!(encode_hex(&[0xde, 0xad, 0xbe, 0xef]), "deadbeef");
    assert_eq!(encode_hex(&[]), "");
    assert_eq!(encode_hex(&[0x00, 0x0f]), "000f");
    assert_eq!(decode_hex("deadbeef").unwrap(), vec![0xde, 0xad, 0xbe, 0xef]);
    assert_eq!(decode_hex("DEADBEEF").unwrap(), vec![0xde, 0xad, 0xbe, 0xef]);
    assert_eq!(decode_hex("").unwrap(), Vec::<u8>::new());
    assert_eq!(decode_hex("abc").unwrap_err(), WalletError::InvalidHexEncoding);
    assert_eq!(decode_hex("zz").unwrap_err(), WalletError::InvalidHexEncoding);
    for b in 0..=255u8 {
        assert_eq!(decode_hex(&encode_hex(&[b])).unwrap(), vec![b]);
    }
}

#[test]
fn test_key_hex_boundary() {
    let keys = generate_keypair().unwrap();
    let sk_bytes = keys.secret_key_bytes();
    let pk_bytes = keys.public_key_bytes();
    let wallet = KaspaWallet::new(keys).unwrap();
    assert_eq!(wallet.get_private_key(), encode_hex(&sk_bytes));
    assert_eq!(wallet.get_public_key(), encode_hex(&pk_bytes));
    assert_eq!(wallet.get_private_key().len(), 64);
    assert_eq!(wallet.get_public_key().len(), 66);
}

#[test]
fn test_validate_private_key() {
    let one = "0000000000000000000000000000000000000000000000000000000000000001";
    assert!(KaspaWallet::validate_private_key(one).unwrap());
    // Too short, odd length, non-hex, out of range, all-zero.
    assert!(!KaspaWallet::validate_private_key("abcd").unwrap());
    assert!(!KaspaWallet::validate_private_key(&one[1..]).unwrap());
    assert!(!KaspaWallet::validate_private_key(&"zz".repeat(32)).unwrap());
    assert!(!KaspaWallet::validate_private_key(&"ff".repeat(32)).unwrap());
    assert!(!KaspaWallet::validate_private_key(&"00".repeat(32)).unwrap());
}

#[test]
fn test_from_mnemonic_is_single_sha256() {
    let mnemonic = "abandon ability able about";
    let wallet = KaspaWallet::from_mnemonic(mnemonic, "m/44'/111111'/0'").unwrap();
    let seed: [u8; 32] = sha2::Sha256::digest(mnemonic.as_bytes()).into();
    assert_eq!(wallet.get_private_key(), encode_hex(&seed));
    let again = KaspaWallet::from_mnemonic(mnemonic, "ignored").unwrap();
    assert_eq!(wallet.get_address().unwrap(), again.get_address().unwrap());
}

#[test]
fn test_network_prefix_selection() {
    let keys = generate_keypair().unwrap();
    let wallet = KaspaWallet::with_network(keys, "simnet").unwrap();
    assert!(wallet.get_address().unwrap().starts_with("simnet:"));
}

#[test]
fn test_gui_state_defaults() {
    let state = WalletGui::new();
    assert!(state.private_key.is_empty());
    assert_eq!(state.network, NetworkOption::Mainnet);
    assert!(state.wallet.is_none());
    assert_eq!(state.current_tab, Tab::Overview);
    assert!(state.outputs.is_empty());
    assert!(state.status_message.is_empty());
}

#[test]
fn test_network_option_names() {
    assert_eq!(NetworkOption::Mainnet.to_str(), "mainnet");
    assert_eq!(NetworkOption::Testnet10.to_str(), "testnet-10");
    assert_eq!(NetworkOption::Testnet11.to_str(), "testnet-11");
    assert_eq!(NetworkOption::Simnet.to_str(), "simnet");
}

#[test]
fn test_error_messages_distinct() {
    let kinds = [
        WalletError::InvalidHexEncoding,
        WalletError::InvalidKeyLength,
        WalletError::InvalidSecretKey,
        WalletError::InvalidAddressStructure,
        WalletError::ChecksumMismatch,
        WalletError::IndexOutOfRange,
        WalletError::InvalidOutputAddress,
        WalletError::EntropySourceUnavailable,
    ];
    for (i, a) in kinds.iter().enumerate() {
        for (j, b) in kinds.iter().enumerate() {
            if i != j {
                assert_ne!(a.message(), b.message());
            }
        }
    }
}
