use vstd::prelude::*;

use crate::codec::{
    bytes_eq, copy_bytes, decimal_of, decimal_u64, encode_payload, hex_encode_20, hex_of,
    hex_prefix, key_chain, key_name, key_symbol, key_token_id, key_uri, parse_cross_chain_nft_data,
    payload_bytes, payload_decodes, payload_field, relay_name, relay_name_bytes, relay_symbol,
    relay_symbol_bytes,
};
use crate::constants::{
    DEFAULT_CROSS_CHAIN_FEE, MAX_CHAIN_LEN, MAX_CONTRACT_LEN, MAX_NAME_LEN, MAX_RECIPIENT_LEN,
    MAX_SYMBOL_LEN, MAX_TOKEN_ID_LEN, MAX_TRANSFER_ID_LEN, MAX_URI_LEN, SOLANA_CHAIN_ID,
};
use crate::error::ErrorCode;
use crate::instructions::{
    validate_gateway_caller, CompleteCrossChainTransfer, ConfirmCrossChainTransfer, DepositAndCall,
    Initialize, InitiateCrossChainTransfer, MintNft, OnCall, OnRevert,
};
use crate::pubkey::Pubkey;
use crate::state::{
    CrossChainTransfer, CrossChainTransferView, FeePayment, GatewayDepositAndCall, GlobalConfig,
    NftMinted, RevertOptions, TokenAccount, TransferCompleted, TransferInitiated, TransferReverted,
    TransferStatus, UniversalNft, UniversalNftView,
};
use crate::store::RecordStore;

verus! {

/// Everything the bridge holds: its configuration and its three kinds of record.
pub ghost struct ProgramView {
    pub config: GlobalConfig,
    pub nfts: Map<Pubkey, UniversalNftView>,
    pub transfers: Map<Seq<u8>, CrossChainTransferView>,
    pub tokens: Map<(Pubkey, Pubkey), TokenAccount>,
}

/// A text field that is present and at most `max` bytes long.
pub open spec fn bounded(s: Seq<u8>, max: usize) -> bool {
    1 <= s.len() <= max
}

impl ProgramView {
    /// Units of `mint` held by `owner`.
    pub open spec fn balance(self, mint: Pubkey, owner: Pubkey) -> u64 {
        if self.tokens.contains_key((mint, owner)) {
            self.tokens[(mint, owner)].amount
        } else {
            0
        }
    }

    /// The state with `owner` holding `amount` units of `mint`.
    pub open spec fn with_balance(self, mint: Pubkey, owner: Pubkey, amount: u64) -> ProgramView {
        ProgramView {
            tokens: self.tokens.insert((mint, owner), TokenAccount { mint, owner, amount }),
            ..self
        }
    }

    pub open spec fn with_nft(self, nft: UniversalNftView) -> ProgramView {
        ProgramView { nfts: self.nfts.insert(nft.mint, nft), ..self }
    }

    pub open spec fn with_transfer(self, t: CrossChainTransferView) -> ProgramView {
        ProgramView { transfers: self.transfers.insert(t.transfer_id, t), ..self }
    }

    /// Some transfer of `mint` is in flight.
    pub open spec fn has_active_transfer(self, mint: Pubkey) -> bool {
        exists|t: Seq<u8>|
            #![trigger self.transfers[t]]
            self.transfers.contains_key(t) && self.transfers[t].nft_mint == mint
                && self.transfers[t].status.is_active()
    }

    /// An asset is locked exactly when a transfer of it is in flight.
    pub open spec fn locks_match_transfers(self) -> bool {
        forall|m: Pubkey| #[trigger]
            self.nfts.contains_key(m) ==> (self.nfts[m].is_locked <==> self.has_active_transfer(m))
    }

    /// No asset has two transfers in flight.
    pub open spec fn one_active_transfer(self) -> bool {
        forall|t1: Seq<u8>, t2: Seq<u8>|
            #![trigger self.transfers[t1], self.transfers[t2]]
            self.transfers.contains_key(t1) && self.transfers.contains_key(t2)
                && self.transfers[t1].status.is_active() && self.transfers[t2].status.is_active()
                && self.transfers[t1].nft_mint == self.transfers[t2].nft_mint ==> t1 == t2
    }

    /// Each record sits under its own key and is consistent in itself, and
    /// every transfer names an asset that exists.
    pub open spec fn records_consistent(self) -> bool {
        &&& forall|m: Pubkey| #[trigger]
            self.nfts.contains_key(m) ==> self.nfts[m].mint == m && self.nfts[m].lock_consistent()
        &&& forall|t: Seq<u8>| #[trigger]
            self.transfers.contains_key(t) ==> {
                &&& self.transfers[t].transfer_id == t
                &&& self.transfers[t].completion_consistent()
                &&& self.nfts.contains_key(self.transfers[t].nft_mint)
            }
        &&& forall|k: (Pubkey, Pubkey)| #[trigger]
            self.tokens.contains_key(k) ==> (self.tokens[k].mint, self.tokens[k].owner) == k
    }

    pub open spec fn consistent(self) -> bool {
        &&& self.records_consistent()
        &&& self.locks_match_transfers()
        &&& self.one_active_transfer()
    }

    /// Every transfer recorded in `self` is still recorded in `next`, either
    /// unchanged or one step further along its life.
    pub open spec fn transfers_advance_to(self, next: ProgramView) -> bool {
        forall|t: Seq<u8>| #[trigger]
            self.transfers.contains_key(t) ==> next.transfers.contains_key(t) && (
            next.transfers[t] == self.transfers[t] || self.transfers[t].status.steps_to(
                next.transfers[t].status,
            ))
    }

    /// What no instruction changes: the configuration, the existence of an
    /// asset record, and the owner of an asset while it is locked.
    pub open spec fn keeps_fixed_parts(self, next: ProgramView) -> bool {
        &&& next.config == self.config
        &&& forall|m: Pubkey| #[trigger]
            self.nfts.contains_key(m) ==> next.nfts.contains_key(m) && (self.nfts[m].is_locked
                ==> next.nfts[m].owner == self.nfts[m].owner)
    }

    /// The outcome of `confirm_cross_chain_transfer`.
    pub open spec fn confirm_result(
        self,
        ctx: ConfirmCrossChainTransfer,
        transfer_id: Seq<u8>,
    ) -> Result<ProgramView, ErrorCode> {
        if ctx.zetachain_gateway != self.config.zetachain_gateway {
            Err(ErrorCode::GatewayNotConfigured)
        } else if !self.transfers.contains_key(transfer_id) {
            Err(ErrorCode::TransferNotFound)
        } else if self.transfers[transfer_id].status != TransferStatus::Initiated {
            Err(ErrorCode::InvalidTransferStatus)
        } else {
            Ok(
                self.with_transfer(
                    self.transfers[transfer_id].with_status(TransferStatus::Confirmed),
                ),
            )
        }
    }
    /// The outcome of `mint_nft`.
    pub open spec fn mint_result(
        self,
        ctx: MintNft,
        bump: u8,
        name: Seq<u8>,
        symbol: Seq<u8>,
        uri: Seq<u8>,
        original_chain: Seq<u8>,
        original_contract: Seq<u8>,
        original_token_id: Seq<u8>,
        now: i64,
    ) -> Result<ProgramView, ErrorCode> {
        if ctx.collection_authority != self.config.collection_authority {
            Err(ErrorCode::Unauthorized)
        } else if self.nfts.contains_key(ctx.mint) {
            Err(ErrorCode::NftAlreadyExists)
        } else if !bounded(name, MAX_NAME_LEN) || !bounded(symbol, MAX_SYMBOL_LEN) || !bounded(
            uri,
            MAX_URI_LEN,
        ) {
            Err(ErrorCode::InvalidMetadataUri)
        } else if !bounded(original_chain, MAX_CHAIN_LEN) || !bounded(
            original_contract,
            MAX_CONTRACT_LEN,
        ) || !bounded(original_token_id, MAX_TOKEN_ID_LEN) {
            Err(ErrorCode::InvalidOriginalChain)
        } else if self.balance(ctx.mint, ctx.recipient) == u64::MAX {
            Err(ErrorCode::MintFailed)
        } else {
            Ok(
                self.with_nft(
                    fresh_nft(
                        ctx.mint,
                        ctx.recipient,
                        original_chain,
                        original_contract,
                        original_token_id,
                        uri,
                        now,
                        bump,
                    ),
                ).with_balance(
                    ctx.mint,
                    ctx.recipient,
                    (self.balance(ctx.mint, ctx.recipient) + 1) as u64,
                ),
            )
        }
    }

    /// The conditions that `initiate_cross_chain_transfer` and
    /// `deposit_and_call` share on the asset, its owner and the transfer id,
    /// tested in this order; the first that fails gives the error.
    pub open spec fn transfer_start_error(
        self,
        nft_mint: Pubkey,
        owner: Pubkey,
        transfer_id: Seq<u8>,
    ) -> Option<ErrorCode> {
        if !self.nfts.contains_key(nft_mint) {
            Some(ErrorCode::NftNotFound)
        } else if self.nfts[nft_mint].is_locked {
            Some(ErrorCode::NftLocked)
        } else if self.nfts[nft_mint].owner != owner {
            Some(ErrorCode::Unauthorized)
        } else if self.transfers.contains_key(transfer_id) {
            Some(ErrorCode::TransferAlreadyExists)
        } else if self.balance(nft_mint, owner) != 1 {
            Some(ErrorCode::Unauthorized)
        } else if !bounded(transfer_id, MAX_TRANSFER_ID_LEN) {
            Some(ErrorCode::InvalidDestinationAddress)
        } else {
            None
        }
    }

    /// The state once a transfer of `nft_mint` to `chain` and `recipient` has
    /// been recorded and the asset locked for it.
    pub open spec fn start_transfer(
        self,
        nft_mint: Pubkey,
        owner: Pubkey,
        transfer_id: Seq<u8>,
        chain: Seq<u8>,
        recipient: Seq<u8>,
        bump: u8,
        now: i64,
    ) -> ProgramView {
        self.with_nft(self.nfts[nft_mint].locked(chain, recipient, now)).with_transfer(
            CrossChainTransferView {
                transfer_id,
                nft_mint,
                source_owner: owner,
                destination_chain: chain,
                destination_recipient: recipient,
                status: TransferStatus::Initiated,
                initiated_at: now,
                completed_at: None,
                bump,
            },
        )
    }

    /// The outcome of `initiate_cross_chain_transfer`.
    pub open spec fn initiate_result(
        self,
        ctx: InitiateCrossChainTransfer,
        transfer_id: Seq<u8>,
        destination_chain: Seq<u8>,
        destination_recipient: Seq<u8>,
        bump: u8,
        now: i64,
    ) -> Result<ProgramView, ErrorCode> {
        match self.transfer_start_error(ctx.nft_mint, ctx.owner, transfer_id) {
            Some(e) => Err(e),
            None => if !bounded(destination_chain, MAX_CHAIN_LEN) || destination_chain
                == decimal_of(SOLANA_CHAIN_ID as nat) {
                Err(ErrorCode::InvalidChainId)
            } else if !bounded(destination_recipient, MAX_RECIPIENT_LEN) {
                Err(ErrorCode::InvalidDestinationAddress)
            } else if ctx.payer_lamports < self.config.cross_chain_fee {
                Err(ErrorCode::InsufficientFunds)
            } else {
                Ok(
                    self.start_transfer(
                        ctx.nft_mint,
                        ctx.owner,
                        transfer_id,
                        destination_chain,
                        destination_recipient,
                        bump,
                        now,
                    ),
                )
            },
        }
    }

    /// The outcome of `deposit_and_call`: as for a transfer started with
    /// `initiate_cross_chain_transfer`, and the owner's unit is extinguished.
    pub open spec fn deposit_result(
        self,
        ctx: DepositAndCall,
        transfer_id: Seq<u8>,
        destination_chain_id: u64,
        destination_recipient: Seq<u8>,
        bump: u8,
        now: i64,
    ) -> Result<ProgramView, ErrorCode> {
        match self.transfer_start_error(ctx.nft_mint, ctx.owner, transfer_id) {
            Some(e) => Err(e),
            None => if destination_chain_id == 0 || destination_chain_id == SOLANA_CHAIN_ID {
                Err(ErrorCode::InvalidChainId)
            } else if ctx.payer_lamports < self.config.cross_chain_fee {
                Err(ErrorCode::InsufficientFunds)
            } else {
                Ok(
                    self.start_transfer(
                        ctx.nft_mint,
                        ctx.owner,
                        transfer_id,
                        decimal_of(destination_chain_id as nat),
                        hex_prefix() + hex_of(destination_recipient),
                        bump,
                        now,
                    ).with_balance(ctx.nft_mint, ctx.owner, 0),
                )
            },
        }
    }

    /// The state once transfer `transfer_id` has ended with `status` at `now`
    /// and its asset has been unlocked.
    pub open spec fn end_transfer(
        self,
        transfer_id: Seq<u8>,
        status: TransferStatus,
        now: i64,
    ) -> ProgramView {
        let t = self.transfers[transfer_id];
        self.with_transfer(t.finished(status, now)).with_nft(
            self.nfts[t.nft_mint].unlocked(now),
        )
    }

    /// The outcome of `complete_cross_chain_transfer`.
    pub open spec fn complete_result(
        self,
        ctx: CompleteCrossChainTransfer,
        transfer_id: Seq<u8>,
        now: i64,
    ) -> Result<ProgramView, ErrorCode> {
        if ctx.zetachain_gateway != self.config.zetachain_gateway {
            Err(ErrorCode::GatewayNotConfigured)
        } else if ctx.collection_authority != self.config.collection_authority {
            Err(ErrorCode::Unauthorized)
        } else if !self.transfers.contains_key(transfer_id) {
            Err(ErrorCode::TransferNotFound)
        } else if self.transfers[transfer_id].status != TransferStatus::Confirmed {
            Err(ErrorCode::InvalidTransferStatus)
        } else if self.transfers[transfer_id].nft_mint != ctx.nft_mint {
            Err(ErrorCode::InvalidOriginalChain)
        } else if self.balance(ctx.nft_mint, self.transfers[transfer_id].source_owner) != 1 {
            Err(ErrorCode::Unauthorized)
        } else {
            Ok(
                self.end_transfer(transfer_id, TransferStatus::Completed, now).with_balance(
                    ctx.nft_mint,
                    self.transfers[transfer_id].source_owner,
                    0,
                ),
            )
        }
    }

    /// The outcome of `on_call`.
    pub open spec fn on_call_result(
        self,
        ctx: OnCall,
        sender: Seq<u8>,
        data: Seq<u8>,
        bump: u8,
        now: i64,
    ) -> Result<ProgramView, ErrorCode> {
        if ctx.caller_program != Some(self.config.zetachain_gateway) {
            Err(ErrorCode::Unauthorized)
        } else if !payload_decodes(data) {
            Err(ErrorCode::InvalidOriginalChain)
        } else if self.nfts.contains_key(ctx.mint) && self.nfts[ctx.mint].is_locked {
            Err(ErrorCode::NftLocked)
        } else if self.balance(ctx.mint, ctx.recipient) == u64::MAX {
            Err(ErrorCode::MintFailed)
        } else {
            Ok(
                self.with_nft(
                    fresh_nft(
                        ctx.mint,
                        ctx.recipient,
                        payload_field(data, key_chain()),
                        hex_prefix() + hex_of(sender),
                        payload_field(data, key_token_id()),
                        payload_field(data, key_uri()),
                        now,
                        bump,
                    ),
                ).with_balance(
                    ctx.mint,
                    ctx.recipient,
                    (self.balance(ctx.mint, ctx.recipient) + 1) as u64,
                ),
            )
        }
    }

    /// The outcome of `on_revert`.
    pub open spec fn on_revert_result(
        self,
        ctx: OnRevert,
        transfer_id: Seq<u8>,
        now: i64,
    ) -> Result<ProgramView, ErrorCode> {
        if ctx.caller_program != Some(self.config.zetachain_gateway) {
            Err(ErrorCode::Unauthorized)
        } else if !self.transfers.contains_key(transfer_id) {
            Err(ErrorCode::TransferNotFound)
        } else if self.transfers[transfer_id].nft_mint != ctx.mint {
            Err(ErrorCode::InvalidOriginalChain)
        } else if self.transfers[transfer_id].status != TransferStatus::Initiated {
            Err(ErrorCode::InvalidTransferStatus)
        } else {
            Ok(self.end_transfer(transfer_id, TransferStatus::Failed, now))
        }
    }
}

/// A newly issued, unlocked asset record.
pub open spec fn fresh_nft(
    mint: Pubkey,
    owner: Pubkey,
    original_chain: Seq<u8>,
    original_contract: Seq<u8>,
    original_token_id: Seq<u8>,
    metadata_uri: Seq<u8>,
    now: i64,
    bump: u8,
) -> UniversalNftView {
    UniversalNftView {
        mint,
        owner,
        original_chain,
        original_contract,
        original_token_id,
        metadata_uri,
        is_locked: false,
        lock_destination_chain: Seq::empty(),
        lock_recipient: Seq::empty(),
        created_at: now,
        updated_at: now,
        bump,
    }
}

proof fn lemma_with_balance(pre: ProgramView, mint: Pubkey, owner: Pubkey, amount: u64)
    requires
        pre.consistent(),
    ensures
        pre.with_balance(mint, owner, amount).consistent(),
        pre.transfers_advance_to(pre.with_balance(mint, owner, amount)),
{
    let post = pre.with_balance(mint, owner, amount);
    assert(post.nfts == pre.nfts);
    assert(post.transfers == pre.transfers);
    assert forall|m: Pubkey| #[trigger] post.nfts.contains_key(m) implies (post.nfts[m].is_locked
        <==> post.has_active_transfer(m)) by {
        assert(pre.has_active_transfer(m) == post.has_active_transfer(m));
    }
}

/// Putting an unlocked record in place of an absent or unlocked one keeps the
/// state consistent.
proof fn lemma_put_unlocked_nft(pre: ProgramView, n: UniversalNftView)
    requires
        pre.consistent(),
        !n.is_locked,
        n.lock_destination_chain.len() == 0,
        pre.nfts.contains_key(n.mint) ==> !pre.nfts[n.mint].is_locked,
    ensures
        pre.with_nft(n).consistent(),
        pre.transfers_advance_to(pre.with_nft(n)),
{
    let post = pre.with_nft(n);
    assert(post.transfers == pre.transfers);
    if pre.has_active_transfer(n.mint) {
        let w = choose|t: Seq<u8>|
            #![trigger pre.transfers[t]]
            pre.transfers.contains_key(t) && pre.transfers[t].nft_mint == n.mint
                && pre.transfers[t].status.is_active();
        assert(pre.nfts.contains_key(pre.transfers[w].nft_mint));
    }
    assert forall|m: Pubkey| #[trigger] post.nfts.contains_key(m) implies (post.nfts[m].is_locked
        <==> post.has_active_transfer(m)) by {
        assert(pre.has_active_transfer(m) == post.has_active_transfer(m));
    }
}

/// Locking an unlocked asset for a new transfer keeps the state consistent.
proof fn lemma_start_transfer(
    pre: ProgramView,
    nft_mint: Pubkey,
    owner: Pubkey,
    transfer_id: Seq<u8>,
    chain: Seq<u8>,
    recipient: Seq<u8>,
    bump: u8,
    now: i64,
)
    requires
        pre.consistent(),
        pre.nfts.contains_key(nft_mint),
        !pre.nfts[nft_mint].is_locked,
        !pre.transfers.contains_key(transfer_id),
        chain.len() > 0,
        recipient.len() > 0,
    ensures
        pre.start_transfer(nft_mint, owner, transfer_id, chain, recipient, bump, now).consistent(),
        pre.transfers_advance_to(
            pre.start_transfer(nft_mint, owner, transfer_id, chain, recipient, bump, now),
        ),
{
    let post = pre.start_transfer(nft_mint, owner, transfer_id, chain, recipient, bump, now);
    assert(!pre.has_active_transfer(nft_mint));
    assert forall|t1: Seq<u8>, t2: Seq<u8>|
        #![trigger post.transfers[t1], post.transfers[t2]]
        post.transfers.contains_key(t1) && post.transfers.contains_key(t2)
            && post.transfers[t1].status.is_active() && post.transfers[t2].status.is_active()
            && post.transfers[t1].nft_mint == post.transfers[t2].nft_mint implies t1 == t2 by {
        if t1 != transfer_id && t2 != transfer_id {
            assert(pre.transfers[t1] == post.transfers[t1]);
            assert(pre.transfers[t2] == post.transfers[t2]);
        } else if t1 == transfer_id && t2 != transfer_id {
            assert(pre.transfers[t2] == post.transfers[t2]);
        } else if t2 == transfer_id && t1 != transfer_id {
            assert(pre.transfers[t1] == post.transfers[t1]);
        }
    }
    assert forall|m: Pubkey| #[trigger] post.nfts.contains_key(m) implies (post.nfts[m].is_locked
        <==> post.has_active_transfer(m)) by {
        if m == nft_mint {
            assert(post.transfers[transfer_id].nft_mint == m);
        } else {
            if pre.has_active_transfer(m) {
                let w = choose|t: Seq<u8>|
                    #![trigger pre.transfers[t]]
                    pre.transfers.contains_key(t) && pre.transfers[t].nft_mint == m
                        && pre.transfers[t].status.is_active();
                assert(post.transfers[w] == pre.transfers[w]);
            }
            if post.has_active_transfer(m) {
                let w = choose|t: Seq<u8>|
                    #![trigger post.transfers[t]]
                    post.transfers.contains_key(t) && post.transfers[t].nft_mint == m
                        && post.transfers[t].status.is_active();
                assert(w != transfer_id);
                assert(post.transfers[w] == pre.transfers[w]);
            }
        }
    }
}

/// Confirming an initiated transfer keeps the state consistent.
proof fn lemma_confirm_transfer(pre: ProgramView, transfer_id: Seq<u8>)
    requires
        pre.consistent(),
        pre.transfers.contains_key(transfer_id),
        pre.transfers[transfer_id].status == TransferStatus::Initiated,
    ensures
        ({
            let post = pre.with_transfer(
                pre.transfers[transfer_id].with_status(TransferStatus::Confirmed),
            );
            post.consistent() && pre.transfers_advance_to(post)
        }),
{
    let post = pre.with_transfer(pre.transfers[transfer_id].with_status(TransferStatus::Confirmed));
    assert forall|t1: Seq<u8>, t2: Seq<u8>|
        #![trigger post.transfers[t1], post.transfers[t2]]
        post.transfers.contains_key(t1) && post.transfers.contains_key(t2)
            && post.transfers[t1].status.is_active() && post.transfers[t2].status.is_active()
            && post.transfers[t1].nft_mint == post.transfers[t2].nft_mint implies t1 == t2 by {
        assert(pre.transfers[t1].status.is_active());
        assert(pre.transfers[t2].status.is_active());
    }
    assert forall|m: Pubkey| #[trigger] post.nfts.contains_key(m) implies (post.nfts[m].is_locked
        <==> post.has_active_transfer(m)) by {
        if pre.has_active_transfer(m) {
            let w = choose|t: Seq<u8>|
                #![trigger pre.transfers[t]]
                pre.transfers.contains_key(t) && pre.transfers[t].nft_mint == m
                    && pre.transfers[t].status.is_active();
            assert(post.transfers[w].status.is_active());
        }
        if post.has_active_transfer(m) {
            let w = choose|t: Seq<u8>|
                #![trigger post.transfers[t]]
                post.transfers.contains_key(t) && post.transfers[t].nft_mint == m
                    && post.transfers[t].status.is_active();
            assert(pre.transfers[w].status.is_active());
        }
    }
}

/// Ending a transfer in flight and unlocking its asset keeps the state
/// consistent, and moves the transfer one step along its life.
proof fn lemma_end_transfer(
    pre: ProgramView,
    transfer_id: Seq<u8>,
    status: TransferStatus,
    now: i64,
)
    requires
        pre.consistent(),
        pre.transfers.contains_key(transfer_id),
        pre.transfers[transfer_id].status.steps_to(status),
        status.is_final(),
    ensures
        pre.end_transfer(transfer_id, status, now).consistent(),
        pre.transfers_advance_to(pre.end_transfer(transfer_id, status, now)),
{
    let post = pre.end_transfer(transfer_id, status, now);
    let t = pre.transfers[transfer_id];
    let nft_mint = t.nft_mint;
    assert(t.status.is_active());
    assert forall|t1: Seq<u8>, t2: Seq<u8>|
        #![trigger post.transfers[t1], post.transfers[t2]]
        post.transfers.contains_key(t1) && post.transfers.contains_key(t2)
            && post.transfers[t1].status.is_active() && post.transfers[t2].status.is_active()
            && post.transfers[t1].nft_mint == post.transfers[t2].nft_mint implies t1 == t2 by {
        assert(t1 != transfer_id);
        assert(t2 != transfer_id);
        assert(pre.transfers[t1] == post.transfers[t1]);
        assert(pre.transfers[t2] == post.transfers[t2]);
    }
    assert forall|m: Pubkey| #[trigger] post.nfts.contains_key(m) implies (post.nfts[m].is_locked
        <==> post.has_active_transfer(m)) by {
        if post.has_active_transfer(m) {
            let w = choose|x: Seq<u8>|
                #![trigger post.transfers[x]]
                post.transfers.contains_key(x) && post.transfers[x].nft_mint == m
                    && post.transfers[x].status.is_active();
            assert(w != transfer_id);
            assert(post.transfers[w] == pre.transfers[w]);
            assert(pre.transfers[w].status.is_active());
            if m == nft_mint {
                assert(pre.transfers[transfer_id].status.is_active());
                assert(w == transfer_id);
            }
        }
        if m != nft_mint && pre.has_active_transfer(m) {
            let w = choose|x: Seq<u8>|
                #![trigger pre.transfers[x]]
                pre.transfers.contains_key(x) && pre.transfers[x].nft_mint == m
                    && pre.transfers[x].status.is_active();
            assert(w != transfer_id);
            assert(post.transfers[w] == pre.transfers[w]);
        }
    }
}

/// The configuration that `initialize` sets.
pub open spec fn initial_config(
    ctx: Initialize,
    bump: u8,
    cross_chain_fee: Option<u64>,
) -> GlobalConfig {
    GlobalConfig {
        authority: ctx.authority,
        zetachain_gateway: ctx.zetachain_gateway,
        collection_authority: ctx.collection_authority,
        fee_recipient: ctx.fee_recipient,
        cross_chain_fee: match cross_chain_fee {
            Some(fee) => fee,
            None => DEFAULT_CROSS_CHAIN_FEE,
        },
        bump,
    }
}

/// Whether `v` is present and at most `max` bytes long.
fn within(v: &Vec<u8>, max: usize) -> (r: bool)
    ensures
        r == bounded(v@, max),
{
    v.len() >= 1 && v.len() <= max
}

/// The bridge: a configuration set once, and the asset, transfer and token
/// records, each created at most once under its key and never removed.
#[derive(Clone, Debug)]
pub struct UniversalNftProgram {
    config: GlobalConfig,
    nfts: RecordStore<UniversalNft>,
    transfers: RecordStore<CrossChainTransfer>,
    tokens: RecordStore<TokenAccount>,
}

impl View for UniversalNftProgram {
    type V = ProgramView;

    closed spec fn view(&self) -> ProgramView {
        ProgramView {
            config: self.config,
            nfts: self.nfts@,
            transfers: self.transfers@,
            tokens: self.tokens@,
        }
    }
}

impl UniversalNftProgram {
    pub closed spec fn wf(&self) -> bool {
        &&& self.nfts.wf()
        &&& self.transfers.wf()
        &&& self.tokens.wf()
        &&& self@.consistent()
    }

    /// A well-formed program satisfies the invariant of its view.
    pub proof fn lemma_consistent(&self)
        requires
            self.wf(),
        ensures
            self@.consistent(),
    {
    }

    /// Sets up the bridge; the relay must be a configured identity.
    pub fn initialize(ctx: &Initialize, bump: u8, cross_chain_fee: Option<u64>) -> (r: Result<
        UniversalNftProgram,
        ErrorCode,
    >)
        ensures
            r is Ok <==> ctx.zetachain_gateway != Pubkey::spec_default(),
            r is Err ==> r->Err_0 == ErrorCode::GatewayNotConfigured,
            r matches Ok(p) ==> {
                &&& p.wf()
                &&& p@.config == initial_config(*ctx, bump, cross_chain_fee)
                &&& p@.nfts.is_empty()
                &&& p@.transfers.is_empty()
                &&& p@.tokens.is_empty()
            },
    {
        if ctx.zetachain_gateway.is_default() {
            return Err(ErrorCode::GatewayNotConfigured);
        }
        let cross_chain_fee = match cross_chain_fee {
            Some(fee) => fee,
            None => DEFAULT_CROSS_CHAIN_FEE,
        };
        let p = UniversalNftProgram {
            config: GlobalConfig {
                authority: ctx.authority,
                zetachain_gateway: ctx.zetachain_gateway,
                collection_authority: ctx.collection_authority,
                fee_recipient: ctx.fee_recipient,
                cross_chain_fee,
                bump,
            },
            nfts: RecordStore::new(),
            transfers: RecordStore::new(),
            tokens: RecordStore::new(),
        };
        Ok(p)
    }

    /// The configuration.
    pub fn config(&self) -> (r: &GlobalConfig)
        ensures
            *r == self@.config,
    {
        &self.config
    }

    /// The asset record of `mint`, if any.
    pub fn nft(&self, mint: &Pubkey) -> (r: Option<&UniversalNft>)
        requires
            self.wf(),
        ensures
            r is None <==> !self@.nfts.contains_key(*mint),
            r matches Some(x) ==> x@ == self@.nfts[*mint],
    {
        self.nfts.get(mint)
    }

    /// The transfer record of `transfer_id`, if any.
    pub fn transfer(&self, transfer_id: &Vec<u8>) -> (r: Option<&CrossChainTransfer>)
        requires
            self.wf(),
        ensures
            r is None <==> !self@.transfers.contains_key(transfer_id@),
            r matches Some(x) ==> x@ == self@.transfers[transfer_id@],
    {
        self.transfers.get(transfer_id)
    }

    /// Units of `mint` held by `owner`.
    pub fn token_balance(&self, mint: &Pubkey, owner: &Pubkey) -> (r: u64)
        requires
            self.wf(),
        ensures
            r == self@.balance(*mint, *owner),
    {
        match self.tokens.get(&(*mint, *owner)) {
            Some(acc) => acc.amount,
            None => 0,
        }
    }

    fn set_balance(&mut self, mint: Pubkey, owner: Pubkey, amount: u64)
        requires
            old(self).tokens.wf(),
            forall|k: (Pubkey, Pubkey)| #[trigger]
                old(self)@.tokens.contains_key(k) ==> (
                old(self)@.tokens[k].mint,
                old(self)@.tokens[k].owner,
            ) == k,
        ensures
            final(self).tokens.wf(),
            final(self)@ == old(self)@.with_balance(mint, owner, amount),
            final(self).nfts == old(self).nfts,
            final(self).transfers == old(self).transfers,
    {
        let acc = TokenAccount { mint, owner, amount };
        if self.tokens.contains(&(mint, owner)) {
            self.tokens.update(acc);
        } else {
            self.tokens.insert(acc);
        }
    }

    /// Issues a new asset to `ctx.recipient`: records it, unlocked, and
    /// credits the recipient with its one unit.
    pub fn mint_nft(
        &mut self,
        ctx: &MintNft,
        bump: u8,
        name: Vec<u8>,
        symbol: Vec<u8>,
        uri: Vec<u8>,
        original_chain: Vec<u8>,
        original_contract: Vec<u8>,
        original_token_id: Vec<u8>,
        now: i64,
    ) -> (r: Result<NftMinted, ErrorCode>)
        requires
            old(self).wf(),
        ensures
            final(self).wf(),
            old(self)@.transfers_advance_to(final(self)@),
            old(self)@.keeps_fixed_parts(final(self)@),
            match r {
                Ok(ev) => {
                    &&& old(self)@.mint_result(
                        *ctx,
                        bump,
                        name@,
                        symbol@,
                        uri@,
                        original_chain@,
                        original_contract@,
                        original_token_id@,
                        now,
                    ) == Ok::<ProgramView, ErrorCode>(final(self)@)
                    &&& ev.mint == ctx.mint
                    &&& ev.owner == ctx.recipient
                    &&& ev.name@ == name@
                    &&& ev.symbol@ == symbol@
                },
                Err(e) => old(self)@.mint_result(
                    *ctx,
                    bump,
                    name@,
                    symbol@,
                    uri@,
                    original_chain@,
                    original_contract@,
                    original_token_id@,
                    now,
                ) == Err::<ProgramView, ErrorCode>(e) && final(self)@ == old(self)@,
            },
    {
        if ctx.collection_authority != self.config.collection_authority {
            return Err(ErrorCode::Unauthorized);
        }
        if self.nfts.contains(&ctx.mint) {
            return Err(ErrorCode::NftAlreadyExists);
        }
        if !within(&name, MAX_NAME_LEN) || !within(&symbol, MAX_SYMBOL_LEN) || !within(
            &uri,
            MAX_URI_LEN,
        ) {
            return Err(ErrorCode::InvalidMetadataUri);
        }
        if !within(&original_chain, MAX_CHAIN_LEN) || !within(&original_contract, MAX_CONTRACT_LEN)
            || !within(&original_token_id, MAX_TOKEN_ID_LEN) {
            return Err(ErrorCode::InvalidOriginalChain);
        }
        let balance = self.token_balance(&ctx.mint, &ctx.recipient);
        if balance == u64::MAX {
            return Err(ErrorCode::MintFailed);
        }
        let ghost pre = self@;
        let nft = UniversalNft {
            mint: ctx.mint,
            owner: ctx.recipient,
            original_chain,
            original_contract,
            original_token_id,
            metadata_uri: uri,
            is_locked: false,
            lock_destination_chain: Vec::new(),
            lock_recipient: Vec::new(),
            created_at: now,
            updated_at: now,
            bump,
        };
        proof {
            lemma_put_unlocked_nft(pre, nft@);
        }
        self.nfts.insert(nft);
        let ghost mid = self@;
        proof {
            lemma_with_balance(mid, ctx.mint, ctx.recipient, (balance + 1) as u64);
        }
        self.set_balance(ctx.mint, ctx.recipient, balance + 1);
        Ok(NftMinted { mint: ctx.mint, owner: ctx.recipient, name, symbol })
    }

    /// Tests the conditions shared by the two ways of starting a transfer,
    /// in the order of `transfer_start_error`.
    fn check_transfer_start(&self, nft_mint: &Pubkey, owner: &Pubkey, transfer_id: &Vec<u8>) -> (r:
        Result<(), ErrorCode>)
        requires
            self.wf(),
        ensures
            match r {
                Ok(_) => self@.transfer_start_error(*nft_mint, *owner, transfer_id@) is None,
                Err(e) => self@.transfer_start_error(*nft_mint, *owner, transfer_id@) == Some(e),
            },
    {
        let nft = match self.nfts.get(nft_mint) {
            Some(n) => n,
            None => {
                return Err(ErrorCode::NftNotFound);
            },
        };
        if nft.is_locked {
            return Err(ErrorCode::NftLocked);
        }
        if nft.owner != *owner {
            return Err(ErrorCode::Unauthorized);
        }
        if self.transfers.contains(transfer_id) {
            return Err(ErrorCode::TransferAlreadyExists);
        }
        if self.token_balance(nft_mint, owner) != 1 {
            return Err(ErrorCode::Unauthorized);
        }
        if !within(transfer_id, MAX_TRANSFER_ID_LEN) {
            return Err(ErrorCode::InvalidDestinationAddress);
        }
        Ok(())
    }

    /// Locks the asset and records the transfer, once every condition holds.
    fn record_transfer_start(
        &mut self,
        nft_mint: &Pubkey,
        owner: &Pubkey,
        transfer_id: Vec<u8>,
        chain: Vec<u8>,
        recipient: Vec<u8>,
        bump: u8,
        now: i64,
    )
        requires
            old(self).wf(),
            old(self)@.transfer_start_error(*nft_mint, *owner, transfer_id@) is None,
            chain@.len() > 0,
            recipient@.len() > 0,
        ensures
            final(self).wf(),
            final(self)@ == old(self)@.start_transfer(
                *nft_mint,
                *owner,
                transfer_id@,
                chain@,
                recipient@,
                bump,
                now,
            ),
            old(self)@.transfers_advance_to(final(self)@),
    {
        let ghost pre = self@;
        proof {
            lemma_start_transfer(pre, *nft_mint, *owner, transfer_id@, chain@, recipient@, bump, now);
        }
        let transfer = CrossChainTransfer {
            transfer_id,
            nft_mint: *nft_mint,
            source_owner: *owner,
            destination_chain: copy_bytes(&chain),
            destination_recipient: copy_bytes(&recipient),
            status: TransferStatus::Initiated,
            initiated_at: now,
            completed_at: None,
            bump,
        };
        let locked = match self.nfts.get(nft_mint) {
            Some(n) => n.locked(chain, recipient, now),
            None => {
                return;
            },
        };
        self.nfts.update(locked);
        self.transfers.insert(transfer);
    }

    /// Starts a transfer of an asset to another chain: the owner's asset is
    /// locked for it, the transfer is recorded as initiated, and the fee is
    /// paid from the payer to the fee recipient.
    pub fn initiate_cross_chain_transfer(
        &mut self,
        ctx: &InitiateCrossChainTransfer,
        transfer_id: Vec<u8>,
        destination_chain: Vec<u8>,
        destination_recipient: Vec<u8>,
        bump: u8,
        now: i64,
    ) -> (r: Result<TransferInitiated, ErrorCode>)
        requires
            old(self).wf(),
        ensures
            final(self).wf(),
            old(self)@.transfers_advance_to(final(self)@),
            old(self)@.keeps_fixed_parts(final(self)@),
            match r {
                Ok(ev) => {
                    &&& old(self)@.initiate_result(
                        *ctx,
                        transfer_id@,
                        destination_chain@,
                        destination_recipient@,
                        bump,
                        now,
                    ) == Ok::<ProgramView, ErrorCode>(final(self)@)
                    &&& ev.transfer_id@ == transfer_id@
                    &&& ev.fee == FeePayment {
                        from: ctx.payer,
                        to: old(self)@.config.fee_recipient,
                        amount: old(self)@.config.cross_chain_fee,
                    }
                },
                Err(e) => old(self)@.initiate_result(
                    *ctx,
                    transfer_id@,
                    destination_chain@,
                    destination_recipient@,
                    bump,
                    now,
                ) == Err::<ProgramView, ErrorCode>(e) && final(self)@ == old(self)@,
            },
    {
        self.check_transfer_start(&ctx.nft_mint, &ctx.owner, &transfer_id)?;
        let local_chain = decimal_u64(SOLANA_CHAIN_ID);
        if !within(&destination_chain, MAX_CHAIN_LEN) || bytes_eq(&destination_chain, &local_chain) {
            return Err(ErrorCode::InvalidChainId);
        }
        if !within(&destination_recipient, MAX_RECIPIENT_LEN) {
            return Err(ErrorCode::InvalidDestinationAddress);
        }
        if ctx.payer_lamports < self.config.cross_chain_fee {
            return Err(ErrorCode::InsufficientFunds);
        }
        let fee = FeePayment {
            from: ctx.payer,
            to: self.config.fee_recipient,
            amount: self.config.cross_chain_fee,
        };
        let id = copy_bytes(&transfer_id);
        self.record_transfer_start(
            &ctx.nft_mint,
            &ctx.owner,
            transfer_id,
            destination_chain,
            destination_recipient,
            bump,
            now,
        );
        Ok(TransferInitiated { transfer_id: id, fee })
    }

    /// Starts a transfer through the relay. As `initiate_cross_chain_transfer`,
    /// with the chain given by number and the recipient as a 20-byte address;
    /// the owner's unit is extinguished, and the call into the relay's inbound
    /// entrypoint is returned. The host makes that call within the same
    /// transaction, which commits the new state only if the call succeeds.
    pub fn deposit_and_call(
        &mut self,
        ctx: &DepositAndCall,
        transfer_id: Vec<u8>,
        destination_chain_id: u64,
        destination_recipient: [u8; 20],
        revert_options: Option<RevertOptions>,
        bump: u8,
        now: i64,
    ) -> (r: Result<GatewayDepositAndCall, ErrorCode>)
        requires
            old(self).wf(),
        ensures
            final(self).wf(),
            old(self)@.transfers_advance_to(final(self)@),
            old(self)@.keeps_fixed_parts(final(self)@),
            match r {
                Ok(call) => {
                    let nft = old(self)@.nfts[ctx.nft_mint];
                    &&& old(self)@.deposit_result(
                        *ctx,
                        transfer_id@,
                        destination_chain_id,
                        destination_recipient@,
                        bump,
                        now,
                    ) == Ok::<ProgramView, ErrorCode>(final(self)@)
                    &&& call.transfer_id@ == transfer_id@
                    &&& call.destination_chain_id == destination_chain_id
                    &&& call.payer == ctx.payer
                    &&& call.amount == old(self)@.config.cross_chain_fee
                    &&& call.receiver == destination_recipient
                    &&& call.message@ == payload_bytes(
                        nft.original_chain,
                        nft.original_token_id,
                        nft.metadata_uri,
                        relay_name(),
                        relay_symbol(),
                    )
                    &&& call.revert_options == revert_options
                },
                Err(e) => old(self)@.deposit_result(
                    *ctx,
                    transfer_id@,
                    destination_chain_id,
                    destination_recipient@,
                    bump,
                    now,
                ) == Err::<ProgramView, ErrorCode>(e) && final(self)@ == old(self)@,
            },
    {
        self.check_transfer_start(&ctx.nft_mint, &ctx.owner, &transfer_id)?;
        if destination_chain_id == 0 || destination_chain_id == SOLANA_CHAIN_ID {
            return Err(ErrorCode::InvalidChainId);
        }
        if ctx.payer_lamports < self.config.cross_chain_fee {
            return Err(ErrorCode::InsufficientFunds);
        }
        let message = match self.nfts.get(&ctx.nft_mint) {
            Some(nft) => encode_payload(
                &nft.original_chain,
                &nft.original_token_id,
                &nft.metadata_uri,
                &relay_name_bytes(),
                &relay_symbol_bytes(),
            ),
            None => {
                return Err(ErrorCode::NftNotFound);
            },
        };
        let chain = decimal_u64(destination_chain_id);
        let recipient = hex_encode_20(destination_recipient);
        let id = copy_bytes(&transfer_id);
        self.record_transfer_start(
            &ctx.nft_mint,
            &ctx.owner,
            transfer_id,
            chain,
            recipient,
            bump,
            now,
        );
        let ghost mid = self@;
        proof {
            lemma_with_balance(mid, ctx.nft_mint, ctx.owner, 0);
        }
        self.set_balance(ctx.nft_mint, ctx.owner, 0);
        Ok(
            GatewayDepositAndCall {
                transfer_id: id,
                destination_chain_id,
                payer: ctx.payer,
                amount: self.config.cross_chain_fee,
                receiver: destination_recipient,
                message,
                revert_options,
            },
        )
    }

    /// Ends a transfer in flight with `status` and unlocks its asset.
    fn record_transfer_end(&mut self, transfer_id: &Vec<u8>, status: TransferStatus, now: i64)
        requires
            old(self).wf(),
            old(self)@.transfers.contains_key(transfer_id@),
            old(self)@.transfers[transfer_id@].status.steps_to(status),
            status.is_final(),
        ensures
            final(self).wf(),
            final(self)@ == old(self)@.end_transfer(transfer_id@, status, now),
            old(self)@.transfers_advance_to(final(self)@),
    {
        let ghost pre = self@;
        proof {
            lemma_end_transfer(pre, transfer_id@, status, now);
        }
        let (ended, nft_mint) = match self.transfers.get(transfer_id) {
            Some(t) => (t.with_status(status, Some(now)), t.nft_mint),
            None => {
                return;
            },
        };
        let unlocked = match self.nfts.get(&nft_mint) {
            Some(n) => n.unlocked(now),
            None => {
                return;
            },
        };
        self.transfers.update(ended);
        self.nfts.update(unlocked);
    }

    /// Completes a confirmed transfer: the source owner's remaining unit is
    /// extinguished, the transfer is marked completed and its asset unlocked.
    pub fn complete_cross_chain_transfer(
        &mut self,
        ctx: &CompleteCrossChainTransfer,
        transfer_id: &Vec<u8>,
        now: i64,
    ) -> (r: Result<TransferCompleted, ErrorCode>)
        requires
            old(self).wf(),
        ensures
            final(self).wf(),
            old(self)@.transfers_advance_to(final(self)@),
            old(self)@.keeps_fixed_parts(final(self)@),
            match r {
                Ok(ev) => old(self)@.complete_result(*ctx, transfer_id@, now) == Ok::<
                    ProgramView,
                    ErrorCode,
                >(final(self)@) && ev.transfer_id@ == transfer_id@,
                Err(e) => old(self)@.complete_result(*ctx, transfer_id@, now) == Err::<
                    ProgramView,
                    ErrorCode,
                >(e) && final(self)@ == old(self)@,
            },
    {
        if ctx.zetachain_gateway != self.config.zetachain_gateway {
            return Err(ErrorCode::GatewayNotConfigured);
        }
        if ctx.collection_authority != self.config.collection_authority {
            return Err(ErrorCode::Unauthorized);
        }
        let (status, nft_mint, source_owner) = match self.transfers.get(transfer_id) {
            Some(t) => (t.status, t.nft_mint, t.source_owner),
            None => {
                return Err(ErrorCode::TransferNotFound);
            },
        };
        if status != TransferStatus::Confirmed {
            return Err(ErrorCode::InvalidTransferStatus);
        }
        if nft_mint != ctx.nft_mint {
            return Err(ErrorCode::InvalidOriginalChain);
        }
        if self.token_balance(&nft_mint, &source_owner) != 1 {
            return Err(ErrorCode::Unauthorized);
        }
        self.record_transfer_end(transfer_id, TransferStatus::Completed, now);
        let ghost mid = self@;
        proof {
            lemma_with_balance(mid, nft_mint, source_owner, 0);
        }
        self.set_balance(nft_mint, source_owner, 0);
        Ok(TransferCompleted { transfer_id: copy_bytes(transfer_id) })
    }

    /// Receives an asset through the relay: the caller must be the configured
    /// relay; the asset record is created, or re-initialised if the asset is
    /// not in flight, from the message, and a fresh unit is issued to
    /// `ctx.recipient` under the program's own authority.
    pub fn on_call(
        &mut self,
        ctx: &OnCall,
        _amount: u64,
        sender: [u8; 20],
        data: &Vec<u8>,
        bump: u8,
        now: i64,
    ) -> (r: Result<NftMinted, ErrorCode>)
        requires
            old(self).wf(),
        ensures
            final(self).wf(),
            old(self)@.transfers_advance_to(final(self)@),
            old(self)@.keeps_fixed_parts(final(self)@),
            match r {
                Ok(ev) => {
                    let name = payload_field(data@, key_name());
                    let symbol = payload_field(data@, key_symbol());
                    &&& old(self)@.on_call_result(*ctx, sender@, data@, bump, now) == Ok::<
                        ProgramView,
                        ErrorCode,
                    >(final(self)@)
                    &&& ev.mint == ctx.mint
                    &&& ev.owner == ctx.recipient
                    &&& ev.name@ == if name.len() == 0 {
                        relay_name()
                    } else {
                        name
                    }
                    &&& ev.symbol@ == if symbol.len() == 0 {
                        relay_symbol()
                    } else {
                        symbol
                    }
                },
                Err(e) => old(self)@.on_call_result(*ctx, sender@, data@, bump, now) == Err::<
                    ProgramView,
                    ErrorCode,
                >(e) && final(self)@ == old(self)@,
            },
    {
        validate_gateway_caller(ctx.caller_program, &self.config)?;
        let parsed = parse_cross_chain_nft_data(data)?;
        if let Some(existing) = self.nfts.get(&ctx.mint) {
            if existing.is_locked {
                return Err(ErrorCode::NftLocked);
            }
        }
        let balance = self.token_balance(&ctx.mint, &ctx.recipient);
        if balance == u64::MAX {
            return Err(ErrorCode::MintFailed);
        }
        let ghost pre = self@;
        let nft = UniversalNft {
            mint: ctx.mint,
            owner: ctx.recipient,
            original_chain: parsed.original_chain,
            original_contract: hex_encode_20(sender),
            original_token_id: parsed.token_id,
            metadata_uri: parsed.metadata_uri,
            is_locked: false,
            lock_destination_chain: Vec::new(),
            lock_recipient: Vec::new(),
            created_at: now,
            updated_at: now,
            bump,
        };
        proof {
            lemma_put_unlocked_nft(pre, nft@);
        }
        if self.nfts.contains(&ctx.mint) {
            self.nfts.update(nft);
        } else {
            self.nfts.insert(nft);
        }
        let ghost mid = self@;
        proof {
            lemma_with_balance(mid, ctx.mint, ctx.recipient, (balance + 1) as u64);
        }
        self.set_balance(ctx.mint, ctx.recipient, balance + 1);
        let name = if parsed.name.len() == 0 {
            relay_name_bytes()
        } else {
            parsed.name
        };
        let symbol = if parsed.symbol.len() == 0 {
            relay_symbol_bytes()
        } else {
            parsed.symbol
        };
        Ok(NftMinted { mint: ctx.mint, owner: ctx.recipient, name, symbol })
    }

    /// The relay reports that a transfer failed: the caller must be the
    /// configured relay, and the transfer must still be initiated and concern
    /// `ctx.mint`. The transfer is marked failed and its asset unlocked; a unit
    /// extinguished when the transfer started is not issued again.
    pub fn on_revert(
        &mut self,
        ctx: &OnRevert,
        _amount: u64,
        _sender: Pubkey,
        _data: &Vec<u8>,
        transfer_id: &Vec<u8>,
        now: i64,
    ) -> (r: Result<TransferReverted, ErrorCode>)
        requires
            old(self).wf(),
        ensures
            final(self).wf(),
            old(self)@.transfers_advance_to(final(self)@),
            old(self)@.keeps_fixed_parts(final(self)@),
            match r {
                Ok(ev) => old(self)@.on_revert_result(*ctx, transfer_id@, now) == Ok::<
                    ProgramView,
                    ErrorCode,
                >(final(self)@) && ev.transfer_id@ == transfer_id@,
                Err(e) => old(self)@.on_revert_result(*ctx, transfer_id@, now) == Err::<
                    ProgramView,
                    ErrorCode,
                >(e) && final(self)@ == old(self)@,
            },
    {
        validate_gateway_caller(ctx.caller_program, &self.config)?;
        let (status, nft_mint) = match self.transfers.get(transfer_id) {
            Some(t) => (t.status, t.nft_mint),
            None => {
                return Err(ErrorCode::TransferNotFound);
            },
        };
        if nft_mint != ctx.mint {
            return Err(ErrorCode::InvalidOriginalChain);
        }
        if status != TransferStatus::Initiated {
            return Err(ErrorCode::InvalidTransferStatus);
        }
        self.record_transfer_end(transfer_id, TransferStatus::Failed, now);
        Ok(TransferReverted { transfer_id: copy_bytes(transfer_id) })
    }

    /// Records that the relay has observed the transfer as final on the
    /// destination chain.
    pub fn confirm_cross_chain_transfer(
        &mut self,
        ctx: &ConfirmCrossChainTransfer,
        transfer_id: &Vec<u8>,
    ) -> (r: Result<(), ErrorCode>)
        requires
            old(self).wf(),
        ensures
            final(self).wf(),
            old(self)@.transfers_advance_to(final(self)@),
            old(self)@.keeps_fixed_parts(final(self)@),
            match r {
                Ok(_) => old(self)@.confirm_result(*ctx, transfer_id@) == Ok::<
                    ProgramView,
                    ErrorCode,
                >(final(self)@),
                Err(e) => old(self)@.confirm_result(*ctx, transfer_id@) == Err::<
                    ProgramView,
                    ErrorCode,
                >(e) && final(self)@ == old(self)@,
            },
    {
        if ctx.zetachain_gateway != self.config.zetachain_gateway {
            return Err(ErrorCode::GatewayNotConfigured);
        }
        let t = match self.transfers.get(transfer_id) {
            Some(t) => t,
            None => {
                return Err(ErrorCode::TransferNotFound);
            },
        };
        if t.status != TransferStatus::Initiated {
            return Err(ErrorCode::InvalidTransferStatus);
        }
        let next = t.with_status(TransferStatus::Confirmed, t.completed_at);
        proof {
            lemma_confirm_transfer(self@, transfer_id@);
        }
        self.transfers.update(next);
        Ok(())
    }
}

} // verus!
