//! A minimal UTXO-style wallet core: address encoding with a double-SHA-256
//! checksum, a transaction model with deterministic signing payloads, and a
//! fixed binary serialization, all with machine-checked contracts.

pub mod address;
pub mod crypto;
pub mod deser;
pub mod errors;
pub mod gui_state;
pub mod hexcodec;
pub mod keys;
pub mod transaction;
pub mod wallet;
