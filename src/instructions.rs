use vstd::prelude::*;

use crate::error::ErrorCode;
use crate::pubkey::Pubkey;
use crate::state::GlobalConfig;

verus! {

/// The accounts of `initialize`; `authority` signs.
#[derive(Clone, Copy, Debug, PartialEq, Eq, Structural)]
pub struct Initialize {
    pub authority: Pubkey,
    pub zetachain_gateway: Pubkey,
    pub collection_authority: Pubkey,
    pub fee_recipient: Pubkey,
}

/// The accounts of `mint_nft`; `collection_authority` signs.
#[derive(Clone, Copy, Debug, PartialEq, Eq, Structural)]
pub struct MintNft {
    pub mint: Pubkey,
    pub recipient: Pubkey,
    pub collection_authority: Pubkey,
}

/// The accounts of `initiate_cross_chain_transfer`; `owner` and `payer` sign,
/// and `payer_lamports` is the payer's balance when the instruction runs.
#[derive(Clone, Copy, Debug, PartialEq, Eq, Structural)]
pub struct InitiateCrossChainTransfer {
    pub nft_mint: Pubkey,
    pub owner: Pubkey,
    pub payer: Pubkey,
    pub payer_lamports: u64,
}

/// The accounts of `deposit_and_call`; `owner` and `payer` sign, and
/// `payer_lamports` is the payer's balance when the instruction runs.
#[derive(Clone, Copy, Debug, PartialEq, Eq, Structural)]
pub struct DepositAndCall {
    pub nft_mint: Pubkey,
    pub owner: Pubkey,
    pub payer: Pubkey,
    pub payer_lamports: u64,
}

/// The accounts of `confirm_cross_chain_transfer`; `zetachain_gateway` signs.
#[derive(Clone, Copy, Debug, PartialEq, Eq, Structural)]
pub struct ConfirmCrossChainTransfer {
    pub zetachain_gateway: Pubkey,
}

/// The accounts of `complete_cross_chain_transfer`; both authorities sign.
#[derive(Clone, Copy, Debug, PartialEq, Eq, Structural)]
pub struct CompleteCrossChainTransfer {
    pub nft_mint: Pubkey,
    pub collection_authority: Pubkey,
    pub zetachain_gateway: Pubkey,
}

/// The accounts of `on_call`. `caller_program` is the program that issued the
/// current instruction, as the host's instruction record gives it, or `None`
/// where that record could not be read.
#[derive(Clone, Copy, Debug, PartialEq, Eq, Structural)]
pub struct OnCall {
    pub mint: Pubkey,
    pub recipient: Pubkey,
    pub caller_program: Option<Pubkey>,
}

/// The accounts of `on_revert`, with the calling program as for `OnCall`.
#[derive(Clone, Copy, Debug, PartialEq, Eq, Structural)]
pub struct OnRevert {
    pub mint: Pubkey,
    pub caller_program: Option<Pubkey>,
}

/// Names under which the same accounts are also known.
pub type InitiateTransfer = InitiateCrossChainTransfer;

pub type ConfirmTransfer = ConfirmCrossChainTransfer;

pub type CompleteTransfer = CompleteCrossChainTransfer;

/// Tests that the current instruction was issued by the configured relay;
/// fails closed when the calling program is unknown.
pub fn validate_gateway_caller(caller_program: Option<Pubkey>, cfg: &GlobalConfig) -> (r: Result<
    (),
    ErrorCode,
>)
    ensures
        r is Ok <==> caller_program == Some(cfg.zetachain_gateway),
        r is Err ==> r == Err::<(), ErrorCode>(ErrorCode::Unauthorized),
{
    match caller_program {
        Some(program) => {
            if program == cfg.zetachain_gateway {
                Ok(())
            } else {
                Err(ErrorCode::Unauthorized)
            }
        },
        None => Err(ErrorCode::Unauthorized),
    }
}

} // verus!
