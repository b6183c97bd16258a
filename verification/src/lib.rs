//! Core of a BIP-352 silent payments wallet: key derivation, the set of owned
//! outputs, and the construction, completion, fee placement, signing and
//! finalization of partially signed transactions whose outputs pay silent
//! payment addresses.
//!
//! The elliptic curve arithmetic, the address encodings and the transaction
//! formats are those of the `bitcoin`, `bip39` and `silentpayments` crates. Each
//! call into them stands in a small function whose contract is taken on trust;
//! everything around those calls is verified.
//!
//! Keys, addresses and owned outputs are plain data with a mathematical view.
//! A PSBT and a transaction stay values of the `bitcoin` crate; what is stated
//! of them is stated over [`psbt::psbt_view`] and [`tx::tx_view`].

pub mod address;
pub mod api;
pub mod builder;
pub mod constants;
pub mod derive;
pub mod error;
pub mod fees;
pub mod filler;
pub mod keys;
pub mod outputs;
pub mod psbt;
pub mod sending;
pub mod signer;
pub mod spclient;
pub mod tx;
