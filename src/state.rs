use vstd::prelude::*;

use crate::codec::{bytes_eq, copy_bytes};
use crate::pubkey::Pubkey;
use crate::store::Record;

verus! {

/// Deployment-wide settings, fixed when the program is initialised.
#[derive(Clone, Copy, Debug, PartialEq, Eq, Structural)]
pub struct GlobalConfig {
    pub authority: Pubkey,
    pub zetachain_gateway: Pubkey,
    pub collection_authority: Pubkey,
    pub fee_recipient: Pubkey,
    pub cross_chain_fee: u64,
    pub bump: u8,
}

/// Where a cross-chain transfer stands.
#[derive(Clone, Copy, Debug, PartialEq, Eq, Structural)]
pub enum TransferStatus {
    Initiated,
    Confirmed,
    Completed,
    Failed,
}

impl TransferStatus {
    /// A transfer in flight: its asset stays locked.
    pub open spec fn is_active(self) -> bool {
        self == TransferStatus::Initiated || self == TransferStatus::Confirmed
    }

    /// A transfer that has reached its end.
    pub open spec fn is_final(self) -> bool {
        self == TransferStatus::Completed || self == TransferStatus::Failed
    }

    /// The single steps a transfer may take: `Initiated` to `Confirmed` or to
    /// `Failed`, and `Confirmed` to `Completed`.
    pub open spec fn steps_to(self, next: TransferStatus) -> bool {
        ||| self == TransferStatus::Initiated && next == TransferStatus::Confirmed
        ||| self == TransferStatus::Initiated && next == TransferStatus::Failed
        ||| self == TransferStatus::Confirmed && next == TransferStatus::Completed
    }
}

/// A non-fungible asset tracked by this program, keyed by its mint.
#[derive(Clone, Debug)]
pub struct UniversalNft {
    pub mint: Pubkey,
    pub owner: Pubkey,
    pub original_chain: Vec<u8>,
    pub original_contract: Vec<u8>,
    pub original_token_id: Vec<u8>,
    pub metadata_uri: Vec<u8>,
    pub is_locked: bool,
    pub lock_destination_chain: Vec<u8>,
    pub lock_recipient: Vec<u8>,
    pub created_at: i64,
    pub updated_at: i64,
    pub bump: u8,
}

pub ghost struct UniversalNftView {
    pub mint: Pubkey,
    pub owner: Pubkey,
    pub original_chain: Seq<u8>,
    pub original_contract: Seq<u8>,
    pub original_token_id: Seq<u8>,
    pub metadata_uri: Seq<u8>,
    pub is_locked: bool,
    pub lock_destination_chain: Seq<u8>,
    pub lock_recipient: Seq<u8>,
    pub created_at: i64,
    pub updated_at: i64,
    pub bump: u8,
}

impl UniversalNftView {
    /// An asset is locked exactly when it names where it is being sent.
    pub open spec fn lock_consistent(self) -> bool {
        self.is_locked <==> (self.lock_destination_chain.len() > 0
            && self.lock_recipient.len() > 0)
    }

    /// The asset unlocked, with its lock fields cleared, as of `now`.
    pub open spec fn unlocked(self, now: i64) -> UniversalNftView {
        UniversalNftView {
            is_locked: false,
            lock_destination_chain: Seq::empty(),
            lock_recipient: Seq::empty(),
            updated_at: now,
            ..self
        }
    }

    /// The asset locked for a transfer to `chain` and `recipient`, as of `now`.
    pub open spec fn locked(
        self,
        chain: Seq<u8>,
        recipient: Seq<u8>,
        now: i64,
    ) -> UniversalNftView {
        UniversalNftView {
            is_locked: true,
            lock_destination_chain: chain,
            lock_recipient: recipient,
            updated_at: now,
            ..self
        }
    }
}

impl View for UniversalNft {
    type V = UniversalNftView;

    open spec fn view(&self) -> UniversalNftView {
        UniversalNftView {
            mint: self.mint,
            owner: self.owner,
            original_chain: self.original_chain@,
            original_contract: self.original_contract@,
            original_token_id: self.original_token_id@,
            metadata_uri: self.metadata_uri@,
            is_locked: self.is_locked,
            lock_destination_chain: self.lock_destination_chain@,
            lock_recipient: self.lock_recipient@,
            created_at: self.created_at,
            updated_at: self.updated_at,
            bump: self.bump,
        }
    }
}

impl UniversalNft {
    /// A copy of the record with its lock cleared, as of `now`.
    pub fn unlocked(&self, now: i64) -> (r: UniversalNft)
        ensures
            r@ == self@.unlocked(now),
    {
        UniversalNft {
            mint: self.mint,
            owner: self.owner,
            original_chain: copy_bytes(&self.original_chain),
            original_contract: copy_bytes(&self.original_contract),
            original_token_id: copy_bytes(&self.original_token_id),
            metadata_uri: copy_bytes(&self.metadata_uri),
            is_locked: false,
            lock_destination_chain: Vec::new(),
            lock_recipient: Vec::new(),
            created_at: self.created_at,
            updated_at: now,
            bump: self.bump,
        }
    }

    /// A copy of the record locked for a transfer, as of `now`.
    pub fn locked(&self, chain: Vec<u8>, recipient: Vec<u8>, now: i64) -> (r: UniversalNft)
        ensures
            r@ == self@.locked(chain@, recipient@, now),
    {
        UniversalNft {
            mint: self.mint,
            owner: self.owner,
            original_chain: copy_bytes(&self.original_chain),
            original_contract: copy_bytes(&self.original_contract),
            original_token_id: copy_bytes(&self.original_token_id),
            metadata_uri: copy_bytes(&self.metadata_uri),
            is_locked: true,
            lock_destination_chain: chain,
            lock_recipient: recipient,
            created_at: self.created_at,
            updated_at: now,
            bump: self.bump,
        }
    }
}

impl Record for UniversalNft {
    type Key = Pubkey;

    open spec fn key_of(v: UniversalNftView) -> Pubkey {
        v.mint
    }

    fn has_key(&self, k: &Pubkey) -> (b: bool) {
        self.mint == *k
    }

    fn key(&self) -> (k: Pubkey) {
        self.mint
    }
}

/// A request to move an asset to another chain, keyed by its transfer id.
#[derive(Clone, Debug)]
pub struct CrossChainTransfer {
    pub transfer_id: Vec<u8>,
    pub nft_mint: Pubkey,
    pub source_owner: Pubkey,
    pub destination_chain: Vec<u8>,
    pub destination_recipient: Vec<u8>,
    pub status: TransferStatus,
    pub initiated_at: i64,
    pub completed_at: Option<i64>,
    pub bump: u8,
}

pub ghost struct CrossChainTransferView {
    pub transfer_id: Seq<u8>,
    pub nft_mint: Pubkey,
    pub source_owner: Pubkey,
    pub destination_chain: Seq<u8>,
    pub destination_recipient: Seq<u8>,
    pub status: TransferStatus,
    pub initiated_at: i64,
    pub completed_at: Option<i64>,
    pub bump: u8,
}

impl CrossChainTransferView {
    /// The completion time is recorded exactly when the transfer has ended.
    pub open spec fn completion_consistent(self) -> bool {
        self.completed_at is Some <==> self.status.is_final()
    }

    /// The transfer moved to `status`.
    pub open spec fn with_status(self, status: TransferStatus) -> CrossChainTransferView {
        CrossChainTransferView { status, ..self }
    }

    /// The transfer ended with `status` at `now`.
    pub open spec fn finished(self, status: TransferStatus, now: i64) -> CrossChainTransferView {
        CrossChainTransferView { status, completed_at: Some(now), ..self }
    }
}

impl View for CrossChainTransfer {
    type V = CrossChainTransferView;

    open spec fn view(&self) -> CrossChainTransferView {
        CrossChainTransferView {
            transfer_id: self.transfer_id@,
            nft_mint: self.nft_mint,
            source_owner: self.source_owner,
            destination_chain: self.destination_chain@,
            destination_recipient: self.destination_recipient@,
            status: self.status,
            initiated_at: self.initiated_at,
            completed_at: self.completed_at,
            bump: self.bump,
        }
    }
}

impl CrossChainTransfer {
    /// A copy of the record moved to `status`, ended at `completed_at` if given.
    pub fn with_status(&self, status: TransferStatus, completed_at: Option<i64>) -> (r:
        CrossChainTransfer)
        ensures
            r@ == (CrossChainTransferView { status, completed_at, ..self@ }),
    {
        CrossChainTransfer {
            transfer_id: copy_bytes(&self.transfer_id),
            nft_mint: self.nft_mint,
            source_owner: self.source_owner,
            destination_chain: copy_bytes(&self.destination_chain),
            destination_recipient: copy_bytes(&self.destination_recipient),
            status,
            initiated_at: self.initiated_at,
            completed_at,
            bump: self.bump,
        }
    }
}

impl Record for CrossChainTransfer {
    type Key = Vec<u8>;

    open spec fn key_of(v: CrossChainTransferView) -> Seq<u8> {
        v.transfer_id
    }

    fn has_key(&self, k: &Vec<u8>) -> (b: bool) {
        bytes_eq(&self.transfer_id, k)
    }

    fn key(&self) -> (k: Vec<u8>) {
        copy_bytes(&self.transfer_id)
    }
}

/// How many units of the local representation of `mint` an owner holds.
#[derive(Clone, Copy, Debug, PartialEq, Eq, Structural)]
pub struct TokenAccount {
    pub mint: Pubkey,
    pub owner: Pubkey,
    pub amount: u64,
}

impl View for TokenAccount {
    type V = TokenAccount;

    open spec fn view(&self) -> TokenAccount {
        *self
    }
}

impl Record for TokenAccount {
    type Key = (Pubkey, Pubkey);

    open spec fn key_of(v: TokenAccount) -> (Pubkey, Pubkey) {
        (v.mint, v.owner)
    }

    fn has_key(&self, k: &(Pubkey, Pubkey)) -> (b: bool) {
        self.mint == k.0 && self.owner == k.1
    }

    fn key(&self) -> (k: (Pubkey, Pubkey)) {
        (self.mint, self.owner)
    }
}

/// Emitted when a unit of an asset is issued.
#[derive(Debug)]
pub struct NftMinted {
    pub mint: Pubkey,
    pub owner: Pubkey,
    pub name: Vec<u8>,
    pub symbol: Vec<u8>,
}

/// A payment of native currency that the host carries out with the instruction.
#[derive(Clone, Copy, Debug, PartialEq, Eq, Structural)]
pub struct FeePayment {
    pub from: Pubkey,
    pub to: Pubkey,
    pub amount: u64,
}

/// Emitted when a transfer starts; the fee is paid with it.
#[derive(Debug)]
pub struct TransferInitiated {
    pub transfer_id: Vec<u8>,
    pub fee: FeePayment,
}

/// Emitted when a transfer completes.
#[derive(Debug)]
pub struct TransferCompleted {
    pub transfer_id: Vec<u8>,
}

/// Emitted when the relay reports that a transfer failed.
#[derive(Debug)]
pub struct TransferReverted {
    pub transfer_id: Vec<u8>,
}

/// What the relay does if the destination chain rejects a message.
#[derive(Clone, Debug)]
pub struct RevertOptions {
    pub revert_address: [u8; 32],
    pub call_on_revert: bool,
    pub revert_message: Vec<u8>,
}

/// The call into the relay's inbound entrypoint that goes with a transfer: the
/// relay takes `amount` from the payer and delivers `message` to `receiver` on
/// chain `destination_chain_id`.
#[derive(Debug)]
pub struct GatewayDepositAndCall {
    pub transfer_id: Vec<u8>,
    pub destination_chain_id: u64,
    pub payer: Pubkey,
    pub amount: u64,
    pub receiver: [u8; 20],
    pub message: Vec<u8>,
    pub revert_options: Option<RevertOptions>,
}

} // verus!
