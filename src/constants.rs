use vstd::prelude::*;

verus! {

/// Chain identifier of the relay's hub chain.
pub const ZETACHAIN_CHAIN_ID: u64 = 7000;

pub const ETHEREUM_CHAIN_ID: u64 = 1;

pub const BSC_CHAIN_ID: u64 = 56;

pub const POLYGON_CHAIN_ID: u64 = 137;

/// Chain identifier of the ledger this program runs on; never a valid destination.
pub const SOLANA_CHAIN_ID: u64 = 900;

/// Fee charged for a cross-chain transfer when none is configured.
pub const DEFAULT_CROSS_CHAIN_FEE: u64 = 10_000;

pub const DEFAULT_MINT_FEE: u64 = 5_000;

/// Upper bounds, in bytes, on the text fields of a minted asset.
pub const MAX_NAME_LEN: usize = 32;

pub const MAX_SYMBOL_LEN: usize = 10;

pub const MAX_URI_LEN: usize = 200;

pub const MAX_CHAIN_LEN: usize = 32;

pub const MAX_CONTRACT_LEN: usize = 64;

pub const MAX_TOKEN_ID_LEN: usize = 32;

/// Upper bounds, in bytes, on the fields of a transfer request.
pub const MAX_TRANSFER_ID_LEN: usize = 32;

pub const MAX_RECIPIENT_LEN: usize = 64;

} // verus!
