//! A cross-chain bridge for non-fungible assets: assets are locked and
//! extinguished on this ledger, relayed through a trusted messaging gateway,
//! and materialised again on arrival, with every transfer recorded.
pub mod codec;
pub mod constants;
pub mod error;
pub mod pubkey;
pub mod store;
pub mod state;
pub mod instructions;
pub mod program;
pub mod laws;
