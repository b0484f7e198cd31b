use vstd::prelude::*;

use crate::codec::{key_chain, key_token_id, payload_field};
use crate::error::ErrorCode;
use crate::pubkey::Pubkey;
use crate::instructions::{
    CompleteCrossChainTransfer, ConfirmCrossChainTransfer, DepositAndCall,
    InitiateCrossChainTransfer, OnCall, OnRevert,
};
use crate::program::{ProgramView, UniversalNftProgram};
use crate::state::TransferStatus;

verus! {

/// In every reachable state, an asset is locked exactly when some transfer of
/// it is initiated or confirmed. (`initialize` yields a well-formed program and
/// every instruction keeps it well-formed.)
pub proof fn lemma_locked_iff_in_flight(p: &UniversalNftProgram)
    requires
        p.wf(),
    ensures
        forall|m: Pubkey|
            #[trigger] p@.nfts.contains_key(m) ==> (p@.nfts[m].is_locked <==> exists|t: Seq<u8>|
                #![trigger p@.transfers[t]]
                p@.transfers.contains_key(t) && p@.transfers[t].nft_mint == m && (
                p@.transfers[t].status == TransferStatus::Initiated || p@.transfers[t].status
                    == TransferStatus::Confirmed)),
{
    p.lemma_consistent();
}

/// A transfer only moves forward: each instruction leaves every recorded
/// transfer as it was or moves it one step, `Initiated` to `Confirmed` or
/// `Failed`, or `Confirmed` to `Completed`; `Completed` and `Failed` are final.
pub proof fn lemma_status_steps(s: TransferStatus, next: TransferStatus)
    requires
        s.steps_to(next),
    ensures
        s == TransferStatus::Initiated ==> next == TransferStatus::Confirmed || next
            == TransferStatus::Failed,
        s == TransferStatus::Confirmed ==> next == TransferStatus::Completed,
        s != TransferStatus::Completed && s != TransferStatus::Failed,
{
}

/// Confirming a transfer that is not `Initiated` fails with a status error
/// (and a failed instruction changes nothing).
pub proof fn lemma_confirm_needs_initiated(
    v: ProgramView,
    ctx: ConfirmCrossChainTransfer,
    transfer_id: Seq<u8>,
)
    requires
        ctx.zetachain_gateway == v.config.zetachain_gateway,
        v.transfers.contains_key(transfer_id),
        v.transfers[transfer_id].status != TransferStatus::Initiated,
    ensures
        v.confirm_result(ctx, transfer_id) == Err::<ProgramView, ErrorCode>(
            ErrorCode::InvalidTransferStatus,
        ),
{
}

/// Completing a transfer that is not `Confirmed` fails with a status error
/// (and a failed instruction changes nothing).
pub proof fn lemma_complete_needs_confirmed(
    v: ProgramView,
    ctx: CompleteCrossChainTransfer,
    transfer_id: Seq<u8>,
    now: i64,
)
    requires
        ctx.zetachain_gateway == v.config.zetachain_gateway,
        ctx.collection_authority == v.config.collection_authority,
        v.transfers.contains_key(transfer_id),
        v.transfers[transfer_id].status != TransferStatus::Confirmed,
    ensures
        v.complete_result(ctx, transfer_id, now) == Err::<ProgramView, ErrorCode>(
            ErrorCode::InvalidTransferStatus,
        ),
{
}

/// Starting a transfer of a locked asset fails with a lock error, by either
/// entrypoint (and a failed instruction changes nothing).
pub proof fn lemma_locked_asset_cannot_start_transfer(
    v: ProgramView,
    initiate: InitiateCrossChainTransfer,
    deposit: DepositAndCall,
    transfer_id: Seq<u8>,
    destination_chain: Seq<u8>,
    destination_recipient: Seq<u8>,
    destination_chain_id: u64,
    destination_address: Seq<u8>,
    bump: u8,
    now: i64,
)
    requires
        v.nfts.contains_key(initiate.nft_mint),
        v.nfts[initiate.nft_mint].is_locked,
        deposit.nft_mint == initiate.nft_mint,
    ensures
        v.initiate_result(
            initiate,
            transfer_id,
            destination_chain,
            destination_recipient,
            bump,
            now,
        ) == Err::<ProgramView, ErrorCode>(ErrorCode::NftLocked),
        v.deposit_result(deposit, transfer_id, destination_chain_id, destination_address, bump, now)
            == Err::<ProgramView, ErrorCode>(ErrorCode::NftLocked),
{
}

/// A transfer id that is recorded cannot start another transfer, by either
/// entrypoint (and a failed instruction changes nothing, so no second record
/// appears).
pub proof fn lemma_transfer_id_used_once(
    v: ProgramView,
    initiate: InitiateCrossChainTransfer,
    deposit: DepositAndCall,
    transfer_id: Seq<u8>,
    destination_chain: Seq<u8>,
    destination_recipient: Seq<u8>,
    destination_chain_id: u64,
    destination_address: Seq<u8>,
    bump: u8,
    now: i64,
)
    requires
        v.transfers.contains_key(transfer_id),
    ensures
        v.initiate_result(
            initiate,
            transfer_id,
            destination_chain,
            destination_recipient,
            bump,
            now,
        ) is Err,
        v.deposit_result(deposit, transfer_id, destination_chain_id, destination_address, bump, now)
            is Err,
{
}

/// Once a transfer has started under an id, starting another under the same id
/// fails.
pub proof fn lemma_restart_fails(
    v: ProgramView,
    first: InitiateCrossChainTransfer,
    again: InitiateCrossChainTransfer,
    transfer_id: Seq<u8>,
    destination_chain: Seq<u8>,
    destination_recipient: Seq<u8>,
    other_chain: Seq<u8>,
    other_recipient: Seq<u8>,
    bump: u8,
    now: i64,
    later: i64,
)
    requires
        v.initiate_result(first, transfer_id, destination_chain, destination_recipient, bump, now)
            is Ok,
    ensures
        ({
            let w = v.initiate_result(
                first,
                transfer_id,
                destination_chain,
                destination_recipient,
                bump,
                now,
            )->Ok_0;
            w.initiate_result(again, transfer_id, other_chain, other_recipient, bump, later) is Err
        }),
{
}

/// A message from the relay that lacks the chain or the token id fails with a
/// data error (and a failed instruction changes nothing).
pub proof fn lemma_on_call_needs_chain_and_token(
    v: ProgramView,
    ctx: OnCall,
    sender: Seq<u8>,
    data: Seq<u8>,
    bump: u8,
    now: i64,
)
    requires
        ctx.caller_program == Some(v.config.zetachain_gateway),
        payload_field(data, key_chain()).len() == 0 || payload_field(data, key_token_id()).len()
            == 0,
    ensures
        v.on_call_result(ctx, sender, data, bump, now) == Err::<ProgramView, ErrorCode>(
            ErrorCode::InvalidOriginalChain,
        ),
{
}

/// A relay entrypoint invoked by anything but the configured relay fails with
/// an authorization error (and a failed instruction changes nothing).
pub proof fn lemma_relay_entrypoints_need_relay(
    v: ProgramView,
    call: OnCall,
    revert: OnRevert,
    sender: Seq<u8>,
    data: Seq<u8>,
    transfer_id: Seq<u8>,
    bump: u8,
    now: i64,
)
    requires
        call.caller_program != Some(v.config.zetachain_gateway),
        revert.caller_program != Some(v.config.zetachain_gateway),
    ensures
        v.on_call_result(call, sender, data, bump, now) == Err::<ProgramView, ErrorCode>(
            ErrorCode::Unauthorized,
        ),
        v.on_revert_result(revert, transfer_id, now) == Err::<ProgramView, ErrorCode>(
            ErrorCode::Unauthorized,
        ),
{
}

} // verus!
