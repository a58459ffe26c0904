//! Load-testing helpers for a UTXO-style ledger: a capacity packer that
//! splits or consolidates a wallet's unspent cells, the signing-digest
//! framing for single-witness transactions, and a time-bounded metrics window.
pub mod command;
pub mod ledger;
pub mod metrics;
pub mod packer;
pub mod signer;
