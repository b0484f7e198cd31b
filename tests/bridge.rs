use universal_nft::error::ErrorCode;
use universal_nft::instructions::{
    CompleteCrossChainTransfer, ConfirmCrossChainTransfer, DepositAndCall, Initialize,
    InitiateCrossChainTransfer, MintNft, OnCall, OnRevert,
};
use universal_nft::program::UniversalNftProgram;
use universal_nft::pubkey::Pubkey;
use universal_nft::state::TransferStatus;

fn key(n: u64) -> Pubkey {
    Pubkey::new(n, 0, 0, 0)
}

const AUTHORITY: u64 = 1;
const GATEWAY: u64 = 2;
const COLLECTION: u64 = 3;
const FEE_RECIPIENT: u64 = 4;
const MINT: u64 = 10;
const OWNER: u64 = 11;
const PAYER: u64 = 12;

fn setup() -> UniversalNftProgram {
    let ctx = Initialize {
        authority: key(AUTHORITY),
        zetachain_gateway: key(GATEWAY),
        collection_authority: key(COLLECTION),
        fee_recipient: key(FEE_RECIPIENT),
    };
    UniversalNftProgram::initialize(&ctx, 255, None).unwrap()
}

fn mint(p: &mut UniversalNftProgram) {
    let ctx = MintNft {
        mint: key(MINT),
        recipient: key(OWNER),
        collection_authority: key(COLLECTION),
    };
    p.mint_nft(
        &ctx,
        1,
        b"My NFT".to_vec(),
        b"MNFT".to_vec(),
        b"https://x/1".to_vec(),
        b"ethereum".to_vec(),
        b"0xabc".to_vec(),
        b"42".to_vec(),
        100,
    )
    .unwrap();
}

fn initiate_ctx(lamports: u64) -> InitiateCrossChainTransfer {
    InitiateCrossChainTransfer {
        nft_mint: key(MINT),
        owner: key(OWNER),
        payer: key(PAYER),
        payer_lamports: lamports,
    }
}

fn recipient() -> Vec<u8> {
    b"0x1111111111111111111111111111111111111111".to_vec()
}

fn initiate(p: &mut UniversalNftProgram, id: &[u8]) -> Result<(), ErrorCode> {
    p.initiate_cross_chain_transfer(
        &initiate_ctx(1_000_000),
        id.to_vec(),
        b"7000".to_vec(),
        recipient(),
        2,
        200,
    )
    .map(|_| ())
}

fn deposit_ctx() -> DepositAndCall {
    DepositAndCall {
        nft_mint: key(MINT),
        owner: key(OWNER),
        payer: key(PAYER),
        payer_lamports: 1_000_000,
    }
}

fn relay_ctx() -> OnRevert {
    OnRevert { mint: key(MINT), caller_program: Some(key(GATEWAY)) }
}

#[test]
fn initialize_records_configuration() {
    let p = setup();
    let cfg = p.config();
    assert_eq!(cfg.authority, key(AUTHORITY));
    assert_eq!(cfg.zetachain_gateway, key(GATEWAY));
    assert_eq!(cfg.collection_authority, key(COLLECTION));
    assert_eq!(cfg.fee_recipient, key(FEE_RECIPIENT));
    assert_eq!(cfg.cross_chain_fee, 10_000);
    assert_eq!(cfg.bump, 255);
}

#[test]
fn initialize_with_explicit_fee() {
    let ctx = Initialize {
        authority: key(AUTHORITY),
        zetachain_gateway: key(GATEWAY),
        collection_authority: key(COLLECTION),
        fee_recipient: key(FEE_RECIPIENT),
    };
    let p = UniversalNftProgram::initialize(&ctx, 7, Some(42)).unwrap();
    assert_eq!(p.config().cross_chain_fee, 42);
}

#[test]
fn initialize_without_gateway_fails() {
    let ctx = Initialize {
        authority: key(AUTHORITY),
        zetachain_gateway: Pubkey::default(),
        collection_authority: key(COLLECTION),
        fee_recipient: key(FEE_RECIPIENT),
    };
    assert_eq!(
        UniversalNftProgram::initialize(&ctx, 1, None).err(),
        Some(ErrorCode::GatewayNotConfigured)
    );
}

#[test]
fn mint_creates_unlocked_asset() {
    let mut p = setup();
    mint(&mut p);
    let nft = p.nft(&key(MINT)).unwrap();
    assert_eq!(nft.mint, key(MINT));
    assert_eq!(nft.owner, key(OWNER));
    assert!(!nft.is_locked);
    assert_eq!(nft.original_chain, b"ethereum".to_vec());
    assert_eq!(nft.original_contract, b"0xabc".to_vec());
    assert_eq!(nft.original_token_id, b"42".to_vec());
    assert_eq!(nft.metadata_uri, b"https://x/1".to_vec());
    assert!(nft.lock_destination_chain.is_empty());
    assert!(nft.lock_recipient.is_empty());
    assert_eq!(nft.created_at, 100);
    assert_eq!(p.token_balance(&key(MINT), &key(OWNER)), 1);
}

#[test]
fn mint_returns_event() {
    let mut p = setup();
    let ctx = MintNft {
        mint: key(MINT),
        recipient: key(OWNER),
        collection_authority: key(COLLECTION),
    };
    let ev = p
        .mint_nft(
            &ctx,
            1,
            b"Name".to_vec(),
            b"SYM".to_vec(),
            b"u".to_vec(),
            b"c".to_vec(),
            b"k".to_vec(),
            b"t".to_vec(),
            0,
        )
        .unwrap();
    assert_eq!(ev.mint, key(MINT));
    assert_eq!(ev.owner, key(OWNER));
    assert_eq!(ev.name, b"Name".to_vec());
    assert_eq!(ev.symbol, b"SYM".to_vec());
}

fn try_mint(
    p: &mut UniversalNftProgram,
    authority: u64,
    name: &[u8],
    symbol: &[u8],
    uri: &[u8],
    chain: &[u8],
    contract: &[u8],
    token: &[u8],
) -> Result<(), ErrorCode> {
    let ctx = MintNft {
        mint: key(MINT),
        recipient: key(OWNER),
        collection_authority: key(authority),
    };
    p.mint_nft(
        &ctx,
        1,
        name.to_vec(),
        symbol.to_vec(),
        uri.to_vec(),
        chain.to_vec(),
        contract.to_vec(),
        token.to_vec(),
        0,
    )
    .map(|_| ())
}

#[test]
fn mint_rejects_bad_fields() {
    let mut p = setup();
    let long33 = [b'a'; 33];
    let long11 = [b'a'; 11];
    let long201 = [b'a'; 201];
    let long65 = [b'a'; 65];
    assert_eq!(
        try_mint(&mut p, 99, b"n", b"s", b"u", b"c", b"k", b"t"),
        Err(ErrorCode::Unauthorized)
    );
    assert_eq!(
        try_mint(&mut p, COLLECTION, b"", b"s", b"u", b"c", b"k", b"t"),
        Err(ErrorCode::InvalidMetadataUri)
    );
    assert_eq!(
        try_mint(&mut p, COLLECTION, &long33, b"s", b"u", b"c", b"k", b"t"),
        Err(ErrorCode::InvalidMetadataUri)
    );
    assert_eq!(
        try_mint(&mut p, COLLECTION, b"n", &long11, b"u", b"c", b"k", b"t"),
        Err(ErrorCode::InvalidMetadataUri)
    );
    assert_eq!(
        try_mint(&mut p, COLLECTION, b"n", b"s", &long201, b"c", b"k", b"t"),
        Err(ErrorCode::InvalidMetadataUri)
    );
    assert_eq!(
        try_mint(&mut p, COLLECTION, b"n", b"s", b"u", b"", b"k", b"t"),
        Err(ErrorCode::InvalidOriginalChain)
    );
    assert_eq!(
        try_mint(&mut p, COLLECTION, b"n", b"s", b"u", &long33, b"k", b"t"),
        Err(ErrorCode::InvalidOriginalChain)
    );
    assert_eq!(
        try_mint(&mut p, COLLECTION, b"n", b"s", b"u", b"c", &long65, b"t"),
        Err(ErrorCode::InvalidOriginalChain)
    );
    assert_eq!(
        try_mint(&mut p, COLLECTION, b"n", b"s", b"u", b"c", b"k", &long33),
        Err(ErrorCode::InvalidOriginalChain)
    );
    assert!(p.nft(&key(MINT)).is_none());
    assert_eq!(p.token_balance(&key(MINT), &key(OWNER)), 0);
}

#[test]
fn mint_accepts_fields_at_their_bounds() {
    let mut p = setup();
    let n32 = [b'a'; 32];
    let s10 = [b'a'; 10];
    let u200 = [b'a'; 200];
    let c64 = [b'a'; 64];
    assert_eq!(try_mint(&mut p, COLLECTION, &n32, &s10, &u200, &n32, &c64, &n32), Ok(()));
}

#[test]
fn mint_twice_fails() {
    let mut p = setup();
    mint(&mut p);
    assert_eq!(
        try_mint(&mut p, COLLECTION, b"n", b"s", b"u", b"c", b"k", b"t"),
        Err(ErrorCode::NftAlreadyExists)
    );
    assert_eq!(p.token_balance(&key(MINT), &key(OWNER)), 1);
}

#[test]
fn initiate_locks_asset_and_records_transfer() {
    let mut p = setup();
    mint(&mut p);
    let ev = p
        .initiate_cross_chain_transfer(
            &initiate_ctx(1_000_000),
            b"t1".to_vec(),
            b"7000".to_vec(),
            recipient(),
            2,
            200,
        )
        .unwrap();
    assert_eq!(ev.transfer_id, b"t1".to_vec());
    assert_eq!(ev.fee.from, key(PAYER));
    assert_eq!(ev.fee.to, key(FEE_RECIPIENT));
    assert_eq!(ev.fee.amount, 10_000);
    let nft = p.nft(&key(MINT)).unwrap();
    assert!(nft.is_locked);
    assert_eq!(nft.lock_destination_chain, b"7000".to_vec());
    assert_eq!(nft.lock_recipient, recipient());
    assert_eq!(nft.updated_at, 200);
    let t = p.transfer(&b"t1".to_vec()).unwrap();
    assert_eq!(t.status, TransferStatus::Initiated);
    assert_eq!(t.nft_mint, key(MINT));
    assert_eq!(t.source_owner, key(OWNER));
    assert_eq!(t.destination_chain, b"7000".to_vec());
    assert_eq!(t.destination_recipient, recipient());
    assert_eq!(t.initiated_at, 200);
    assert_eq!(t.completed_at, None);
}

#[test]
fn initiate_on_locked_asset_fails() {
    let mut p = setup();
    mint(&mut p);
    initiate(&mut p, b"t1").unwrap();
    assert_eq!(initiate(&mut p, b"t2"), Err(ErrorCode::NftLocked));
    assert!(p.transfer(&b"t2".to_vec()).is_none());
    let t = p.transfer(&b"t1".to_vec()).unwrap();
    assert_eq!(t.status, TransferStatus::Initiated);
    assert_eq!(p.nft(&key(MINT)).unwrap().lock_destination_chain, b"7000".to_vec());
}

#[test]
fn reused_transfer_id_fails() {
    let mut p = setup();
    mint(&mut p);
    initiate(&mut p, b"t1").unwrap();
    p.on_revert(&relay_ctx(), 0, key(GATEWAY), &Vec::new(), &b"t1".to_vec(), 300)
        .unwrap();
    assert_eq!(initiate(&mut p, b"t1"), Err(ErrorCode::TransferAlreadyExists));
    let r = p.deposit_and_call(&deposit_ctx(), b"t1".to_vec(), 1, [0x11; 20], None, 3, 400);
    assert_eq!(r.err(), Some(ErrorCode::TransferAlreadyExists));
    let t = p.transfer(&b"t1".to_vec()).unwrap();
    assert_eq!(t.status, TransferStatus::Failed);
    assert!(!p.nft(&key(MINT)).unwrap().is_locked);
}

#[test]
fn initiate_checks_owner_and_inputs() {
    let mut p = setup();
    let missing = p.initiate_cross_chain_transfer(
        &initiate_ctx(1_000_000),
        b"t1".to_vec(),
        b"7000".to_vec(),
        recipient(),
        2,
        200,
    );
    assert_eq!(missing.err(), Some(ErrorCode::NftNotFound));
    mint(&mut p);
    let stranger = InitiateCrossChainTransfer {
        nft_mint: key(MINT),
        owner: key(99),
        payer: key(PAYER),
        payer_lamports: 1_000_000,
    };
    let r = p.initiate_cross_chain_transfer(
        &stranger,
        b"t1".to_vec(),
        b"7000".to_vec(),
        recipient(),
        2,
        200,
    );
    assert_eq!(r.err(), Some(ErrorCode::Unauthorized));
    let ctx = initiate_ctx(1_000_000);
    let cases: Vec<(Vec<u8>, Vec<u8>, Vec<u8>, ErrorCode)> = vec![
        (Vec::new(), b"7000".to_vec(), recipient(), ErrorCode::InvalidDestinationAddress),
        (vec![b'a'; 33], b"7000".to_vec(), recipient(), ErrorCode::InvalidDestinationAddress),
        (b"t1".to_vec(), Vec::new(), recipient(), ErrorCode::InvalidChainId),
        (b"t1".to_vec(), vec![b'1'; 33], recipient(), ErrorCode::InvalidChainId),
        (b"t1".to_vec(), b"900".to_vec(), recipient(), ErrorCode::InvalidChainId),
        (b"t1".to_vec(), b"7000".to_vec(), Vec::new(), ErrorCode::InvalidDestinationAddress),
        (b"t1".to_vec(), b"7000".to_vec(), vec![b'a'; 65], ErrorCode::InvalidDestinationAddress),
    ];
    for (id, chain, to, err) in cases {
        let r = p.initiate_cross_chain_transfer(&ctx, id, chain, to, 2, 200);
        assert_eq!(r.err(), Some(err));
    }
    let poor = p.initiate_cross_chain_transfer(
        &initiate_ctx(9_999),
        b"t1".to_vec(),
        b"7000".to_vec(),
        recipient(),
        2,
        200,
    );
    assert_eq!(poor.err(), Some(ErrorCode::InsufficientFunds));
    assert!(!p.nft(&key(MINT)).unwrap().is_locked);
    assert!(p.transfer(&b"t1".to_vec()).is_none());
}

#[test]
fn confirm_then_complete() {
    let mut p = setup();
    mint(&mut p);
    initiate(&mut p, b"t1").unwrap();
    let gw = ConfirmCrossChainTransfer { zetachain_gateway: key(GATEWAY) };
    p.confirm_cross_chain_transfer(&gw, &b"t1".to_vec()).unwrap();
    assert_eq!(p.transfer(&b"t1".to_vec()).unwrap().status, TransferStatus::Confirmed);
    assert!(p.nft(&key(MINT)).unwrap().is_locked);
    let ctx = CompleteCrossChainTransfer {
        nft_mint: key(MINT),
        collection_authority: key(COLLECTION),
        zetachain_gateway: key(GATEWAY),
    };
    let ev = p.complete_cross_chain_transfer(&ctx, &b"t1".to_vec(), 500).unwrap();
    assert_eq!(ev.transfer_id, b"t1".to_vec());
    let t = p.transfer(&b"t1".to_vec()).unwrap();
    assert_eq!(t.status, TransferStatus::Completed);
    assert_eq!(t.completed_at, Some(500));
    let nft = p.nft(&key(MINT)).unwrap();
    assert!(!nft.is_locked);
    assert!(nft.lock_destination_chain.is_empty());
    assert!(nft.lock_recipient.is_empty());
    assert_eq!(p.token_balance(&key(MINT), &key(OWNER)), 0);
}

#[test]
fn confirm_rejects_wrong_caller_and_status() {
    let mut p = setup();
    mint(&mut p);
    let gw = ConfirmCrossChainTransfer { zetachain_gateway: key(GATEWAY) };
    assert_eq!(
        p.confirm_cross_chain_transfer(&gw, &b"t1".to_vec()),
        Err(ErrorCode::TransferNotFound)
    );
    initiate(&mut p, b"t1").unwrap();
    let other = ConfirmCrossChainTransfer { zetachain_gateway: key(99) };
    assert_eq!(
        p.confirm_cross_chain_transfer(&other, &b"t1".to_vec()),
        Err(ErrorCode::GatewayNotConfigured)
    );
    p.confirm_cross_chain_transfer(&gw, &b"t1".to_vec()).unwrap();
    assert_eq!(
        p.confirm_cross_chain_transfer(&gw, &b"t1".to_vec()),
        Err(ErrorCode::InvalidTransferStatus)
    );
    assert_eq!(p.transfer(&b"t1".to_vec()).unwrap().status, TransferStatus::Confirmed);
}

#[test]
fn complete_requires_confirmed_transfer() {
    let mut p = setup();
    mint(&mut p);
    initiate(&mut p, b"t1").unwrap();
    let ctx = CompleteCrossChainTransfer {
        nft_mint: key(MINT),
        collection_authority: key(COLLECTION),
        zetachain_gateway: key(GATEWAY),
    };
    assert_eq!(
        p.complete_cross_chain_transfer(&ctx, &b"t1".to_vec(), 500).err(),
        Some(ErrorCode::InvalidTransferStatus)
    );
    assert_eq!(p.transfer(&b"t1".to_vec()).unwrap().status, TransferStatus::Initiated);
    assert!(p.nft(&key(MINT)).unwrap().is_locked);
    assert_eq!(p.token_balance(&key(MINT), &key(OWNER)), 1);
}

#[test]
fn complete_checks_callers_and_asset() {
    let mut p = setup();
    mint(&mut p);
    initiate(&mut p, b"t1").unwrap();
    let gw = ConfirmCrossChainTransfer { zetachain_gateway: key(GATEWAY) };
    p.confirm_cross_chain_transfer(&gw, &b"t1".to_vec()).unwrap();
    let mk = |mint: u64, authority: u64, gateway: u64| CompleteCrossChainTransfer {
        nft_mint: key(mint),
        collection_authority: key(authority),
        zetachain_gateway: key(gateway),
    };
    let id = b"t1".to_vec();
    assert_eq!(
        p.complete_cross_chain_transfer(&mk(MINT, COLLECTION, 99), &id, 1).err(),
        Some(ErrorCode::GatewayNotConfigured)
    );
    assert_eq!(
        p.complete_cross_chain_transfer(&mk(MINT, 99, GATEWAY), &id, 1).err(),
        Some(ErrorCode::Unauthorized)
    );
    assert_eq!(
        p.complete_cross_chain_transfer(&mk(MINT, COLLECTION, GATEWAY), &b"zz".to_vec(), 1)
            .err(),
        Some(ErrorCode::TransferNotFound)
    );
    assert_eq!(
        p.complete_cross_chain_transfer(&mk(77, COLLECTION, GATEWAY), &id, 1).err(),
        Some(ErrorCode::InvalidOriginalChain)
    );
    assert_eq!(p.transfer(&id).unwrap().status, TransferStatus::Confirmed);
}

#[test]
fn deposit_through_relay() {
    let mut p = setup();
    mint(&mut p);
    let receiver = [0xab; 20];
    let call = p
        .deposit_and_call(&deposit_ctx(), b"t9".to_vec(), 7000, receiver, None, 3, 250)
        .unwrap();
    assert_eq!(call.transfer_id, b"t9".to_vec());
    assert_eq!(call.destination_chain_id, 7000);
    assert_eq!(call.payer, key(PAYER));
    assert_eq!(call.amount, 10_000);
    assert_eq!(call.receiver, receiver);
    assert_eq!(
        call.message,
        b"chain:ethereum,token_id:42,uri:https://x/1,name:UniversalNFT,symbol:UNFT".to_vec()
    );
    assert!(call.revert_options.is_none());
    let nft = p.nft(&key(MINT)).unwrap();
    assert!(nft.is_locked);
    assert_eq!(nft.lock_destination_chain, b"7000".to_vec());
    let expected = format!("0x{}", "ab".repeat(20)).into_bytes();
    assert_eq!(nft.lock_recipient, expected);
    let t = p.transfer(&b"t9".to_vec()).unwrap();
    assert_eq!(t.status, TransferStatus::Initiated);
    assert_eq!(t.destination_recipient, expected);
    assert_eq!(p.token_balance(&key(MINT), &key(OWNER)), 0);
}

#[test]
fn deposit_rejects_bad_chain_and_funds() {
    let mut p = setup();
    mint(&mut p);
    for chain in [0u64, 900] {
        let r = p.deposit_and_call(&deposit_ctx(), b"t9".to_vec(), chain, [1; 20], None, 3, 1);
        assert_eq!(r.err(), Some(ErrorCode::InvalidChainId));
    }
    let poor = DepositAndCall { payer_lamports: 0, ..deposit_ctx() };
    let r = p.deposit_and_call(&poor, b"t9".to_vec(), 1, [1; 20], None, 3, 1);
    assert_eq!(r.err(), Some(ErrorCode::InsufficientFunds));
    assert_eq!(p.token_balance(&key(MINT), &key(OWNER)), 1);
    assert!(!p.nft(&key(MINT)).unwrap().is_locked);
    initiate(&mut p, b"t1").unwrap();
    let r = p.deposit_and_call(&deposit_ctx(), b"t9".to_vec(), 1, [1; 20], None, 3, 1);
    assert_eq!(r.err(), Some(ErrorCode::NftLocked));
}

#[test]
fn on_revert_fails_initiated_transfer() {
    let mut p = setup();
    mint(&mut p);
    initiate(&mut p, b"t1").unwrap();
    let ev = p
        .on_revert(&relay_ctx(), 0, key(GATEWAY), &b"reason".to_vec(), &b"t1".to_vec(), 300)
        .unwrap();
    assert_eq!(ev.transfer_id, b"t1".to_vec());
    let t = p.transfer(&b"t1".to_vec()).unwrap();
    assert_eq!(t.status, TransferStatus::Failed);
    assert_eq!(t.completed_at, Some(300));
    let nft = p.nft(&key(MINT)).unwrap();
    assert!(!nft.is_locked);
    assert!(nft.lock_destination_chain.is_empty());
    assert_eq!(nft.updated_at, 300);
}

#[test]
fn on_revert_does_not_restore_extinguished_unit() {
    let mut p = setup();
    mint(&mut p);
    p.deposit_and_call(&deposit_ctx(), b"t1".to_vec(), 7000, [1; 20], None, 3, 250)
        .unwrap();
    assert_eq!(p.token_balance(&key(MINT), &key(OWNER)), 0);
    p.on_revert(&relay_ctx(), 0, key(GATEWAY), &Vec::new(), &b"t1".to_vec(), 300)
        .unwrap();
    assert_eq!(p.transfer(&b"t1".to_vec()).unwrap().status, TransferStatus::Failed);
    assert!(!p.nft(&key(MINT)).unwrap().is_locked);
    assert_eq!(p.token_balance(&key(MINT), &key(OWNER)), 0);
}

#[test]
fn on_revert_checks() {
    let mut p = setup();
    mint(&mut p);
    initiate(&mut p, b"t1").unwrap();
    let id = b"t1".to_vec();
    let none = OnRevert { mint: key(MINT), caller_program: None };
    let other = OnRevert { mint: key(MINT), caller_program: Some(key(99)) };
    let wrong_mint = OnRevert { mint: key(77), caller_program: Some(key(GATEWAY)) };
    let empty = Vec::new();
    assert_eq!(p.on_revert(&none, 0, key(1), &empty, &id, 1).err(), Some(ErrorCode::Unauthorized));
    assert_eq!(p.on_revert(&other, 0, key(1), &empty, &id, 1).err(), Some(ErrorCode::Unauthorized));
    assert_eq!(
        p.on_revert(&relay_ctx(), 0, key(1), &empty, &b"zz".to_vec(), 1).err(),
        Some(ErrorCode::TransferNotFound)
    );
    assert_eq!(
        p.on_revert(&wrong_mint, 0, key(1), &empty, &id, 1).err(),
        Some(ErrorCode::InvalidOriginalChain)
    );
    assert_eq!(p.transfer(&id).unwrap().status, TransferStatus::Initiated);
    assert!(p.nft(&key(MINT)).unwrap().is_locked);
    let gw = ConfirmCrossChainTransfer { zetachain_gateway: key(GATEWAY) };
    p.confirm_cross_chain_transfer(&gw, &id).unwrap();
    assert_eq!(
        p.on_revert(&relay_ctx(), 0, key(1), &empty, &id, 1).err(),
        Some(ErrorCode::InvalidTransferStatus)
    );
    assert_eq!(p.transfer(&id).unwrap().status, TransferStatus::Confirmed);
}

fn on_call_ctx(caller: Option<Pubkey>) -> OnCall {
    OnCall { mint: key(20), recipient: key(21), caller_program: caller }
}

#[test]
fn on_call_issues_asset() {
    let mut p = setup();
    let sender = [0x0f; 20];
    let data = b"chain:ethereum,token_id:7,uri:https://x/7,name:Cat,symbol:CAT".to_vec();
    let ev = p.on_call(&on_call_ctx(Some(key(GATEWAY))), 5, sender, &data, 9, 600).unwrap();
    assert_eq!(ev.mint, key(20));
    assert_eq!(ev.owner, key(21));
    assert_eq!(ev.name, b"Cat".to_vec());
    assert_eq!(ev.symbol, b"CAT".to_vec());
    let nft = p.nft(&key(20)).unwrap();
    assert_eq!(nft.owner, key(21));
    assert_eq!(nft.original_chain, b"ethereum".to_vec());
    assert_eq!(nft.original_token_id, b"7".to_vec());
    assert_eq!(nft.metadata_uri, b"https://x/7".to_vec());
    assert_eq!(nft.original_contract, format!("0x{}", "0f".repeat(20)).into_bytes());
    assert!(!nft.is_locked);
    assert_eq!(nft.bump, 9);
    assert_eq!(p.token_balance(&key(20), &key(21)), 1);
}

#[test]
fn on_call_defaults_name_and_symbol() {
    let mut p = setup();
    let data = b"token_id:7,chain:bsc,extra,other:1".to_vec();
    let ev = p.on_call(&on_call_ctx(Some(key(GATEWAY))), 0, [0; 20], &data, 9, 600).unwrap();
    assert_eq!(ev.name, b"UniversalNFT".to_vec());
    assert_eq!(ev.symbol, b"UNFT".to_vec());
    let nft = p.nft(&key(20)).unwrap();
    assert_eq!(nft.original_chain, b"bsc".to_vec());
    assert!(nft.metadata_uri.is_empty());
}

#[test]
fn on_call_again_reinitialises_unlocked_asset() {
    let mut p = setup();
    let ctx = on_call_ctx(Some(key(GATEWAY)));
    p.on_call(&ctx, 0, [0; 20], &b"chain:a,token_id:1".to_vec(), 1, 10).unwrap();
    p.on_call(&ctx, 0, [0; 20], &b"chain:b,token_id:2".to_vec(), 1, 20).unwrap();
    let nft = p.nft(&key(20)).unwrap();
    assert_eq!(nft.original_chain, b"b".to_vec());
    assert_eq!(nft.created_at, 20);
    assert_eq!(p.token_balance(&key(20), &key(21)), 2);
}

#[test]
fn on_call_refuses_asset_in_flight() {
    let mut p = setup();
    mint(&mut p);
    initiate(&mut p, b"t1").unwrap();
    let ctx = OnCall { mint: key(MINT), recipient: key(21), caller_program: Some(key(GATEWAY)) };
    let r = p.on_call(&ctx, 0, [0; 20], &b"chain:a,token_id:1".to_vec(), 1, 10);
    assert_eq!(r.err(), Some(ErrorCode::NftLocked));
    let nft = p.nft(&key(MINT)).unwrap();
    assert!(nft.is_locked);
    assert_eq!(nft.original_chain, b"ethereum".to_vec());
}

#[test]
fn on_call_missing_fields_fails() {
    let mut p = setup();
    let ctx = on_call_ctx(Some(key(GATEWAY)));
    for data in [
        b"token_id:7,uri:u".to_vec(),
        b"chain:ethereum,uri:u".to_vec(),
        b"chain:,token_id:7".to_vec(),
        Vec::new(),
    ] {
        let r = p.on_call(&ctx, 0, [0; 20], &data, 1, 1);
        assert_eq!(r.err(), Some(ErrorCode::InvalidOriginalChain));
    }
    assert!(p.nft(&key(20)).is_none());
    assert_eq!(p.token_balance(&key(20), &key(21)), 0);
}

#[test]
fn on_call_rejects_invalid_utf8() {
    let mut p = setup();
    let ctx = on_call_ctx(Some(key(GATEWAY)));
    let data = vec![b'c', b'h', b'a', b'i', b'n', b':', 0xff, b',', b't'];
    let r = p.on_call(&ctx, 0, [0; 20], &data, 1, 1);
    assert_eq!(r.err(), Some(ErrorCode::InvalidOriginalChain));
    assert!(p.nft(&key(20)).is_none());
}

#[test]
fn on_call_requires_relay() {
    let mut p = setup();
    let data = b"chain:ethereum,token_id:7".to_vec();
    for caller in [None, Some(key(99)), Some(key(AUTHORITY))] {
        let r = p.on_call(&on_call_ctx(caller), 0, [0; 20], &data, 1, 1);
        assert_eq!(r.err(), Some(ErrorCode::Unauthorized));
    }
    assert!(p.nft(&key(20)).is_none());
    assert_eq!(p.token_balance(&key(20), &key(21)), 0);
}

#[test]
fn complete_requires_the_owner_unit() {
    let mut p = setup();
    mint(&mut p);
    p.deposit_and_call(&deposit_ctx(), b"t1".to_vec(), 7000, [1; 20], None, 3, 250)
        .unwrap();
    let gw = ConfirmCrossChainTransfer { zetachain_gateway: key(GATEWAY) };
    p.confirm_cross_chain_transfer(&gw, &b"t1".to_vec()).unwrap();
    let ctx = CompleteCrossChainTransfer {
        nft_mint: key(MINT),
        collection_authority: key(COLLECTION),
        zetachain_gateway: key(GATEWAY),
    };
    assert_eq!(
        p.complete_cross_chain_transfer(&ctx, &b"t1".to_vec(), 500).err(),
        Some(ErrorCode::Unauthorized)
    );
    assert_eq!(p.transfer(&b"t1".to_vec()).unwrap().status, TransferStatus::Confirmed);
    assert!(p.nft(&key(MINT)).unwrap().is_locked);
}
