use vstd::prelude::*;

verus! {

/// Every way an instruction of the bridge can fail.
#[derive(Clone, Copy, Debug, PartialEq, Eq, Structural)]
pub enum ErrorCode {
    InsufficientFunds,
    NftLocked,
    InvalidChainId,
    Unauthorized,
    InvalidMetadataUri,
    TransferAlreadyExists,
    TransferNotFound,
    InvalidTransferStatus,
    GatewayNotConfigured,
    ComputeBudgetExceeded,
    InvalidDestinationAddress,
    MintFailed,
    InvalidOriginalChain,
    TransferTimeout,
    NftNotFound,
    NftAlreadyExists,
}

} // verus!
