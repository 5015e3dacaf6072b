use nft_contract::contract::Contract;
use nft_contract::error::NftError;
use nft_contract::metadata::{NFTContractMetadata, TokenMetadata};
use nft_contract::token::TokenRec;

fn empty_meta() -> TokenMetadata {
    TokenMetadata {
        title: None,
        description: None,
        media: None,
        media_hash: None,
        copies: None,
        issued_at: None,
        expires_at: None,
        starts_at: None,
        updated_at: None,
        extra: None,
        reference: None,
        reference_hash: None,
    }
}

fn titled_meta(title: &str) -> TokenMetadata {
    let mut m = empty_meta();
    m.title = Some(title.to_string());
    m
}

fn fresh_contract() -> Contract {
    Contract::new_default_meta(false, "alice".to_string()).unwrap()
}

#[test]
fn init_is_exactly_once() {
    assert!(matches!(
        Contract::new_default_meta(true, "alice".to_string()),
        Err(NftError::AlreadyInitialized)
    ));
    let custom = NFTContractMetadata {
        spec_version: "nft-1.0.0".to_string(),
        name: "Gallery".to_string(),
        symbol: "GAL".to_string(),
        icon: None,
        base_uri: None,
        reference: None,
        reference_hash: None,
    };
    assert!(matches!(
        Contract::new(true, "bob".to_string(), custom),
        Err(NftError::AlreadyInitialized)
    ));
    assert!(Contract::new_default_meta(false, "alice".to_string()).is_ok());
}

#[test]
fn default_metadata_is_fixed() {
    let c = fresh_contract();
    let m = c.nft_metadata();
    assert_eq!(m.spec_version, "nft-1.0.0");
    assert_eq!(m.name, "Knight LEGACY NFT ");
    assert_eq!(m.symbol, "KLN");
    assert!(m.icon.is_none());
    assert!(m.base_uri.is_none());
    assert!(m.reference.is_none());
    assert!(m.reference_hash.is_none());
}

#[test]
fn explicit_metadata_is_returned_unchanged() {
    let custom = NFTContractMetadata {
        spec_version: "nft-1.0.0".to_string(),
        name: "Gallery".to_string(),
        symbol: "GAL".to_string(),
        icon: Some("data:image/svg".to_string()),
        base_uri: Some("https://gateway".to_string()),
        reference: Some("https://ref".to_string()),
        reference_hash: Some(vec![1, 2, 3]),
    };
    let c = Contract::new(false, "alice".to_string(), custom).unwrap();
    let m = c.nft_metadata();
    assert_eq!(m.name, "Gallery");
    assert_eq!(m.symbol, "GAL");
    assert_eq!(m.icon.as_deref(), Some("data:image/svg"));
    assert_eq!(m.base_uri.as_deref(), Some("https://gateway"));
    assert_eq!(m.reference.as_deref(), Some("https://ref"));
    assert_eq!(m.reference_hash, Some(vec![1, 2, 3]));
}

#[test]
fn mint_assigns_owner_and_refunds_excess() {
    let mut c = fresh_contract();
    let out = c
        .nft_mint("t1".to_string(), "bob".to_string(), titled_meta("Sword"), 10, 4)
        .unwrap();
    assert_eq!(out.refund, 6);
    assert_eq!(out.token.token_id, "t1");
    assert_eq!(out.token.owner_id, "bob");
    assert_eq!(out.token.metadata.title.as_deref(), Some("Sword"));
    assert!(out.token.approved_account_ids.is_empty());
    assert_eq!(c.nft_total_supply(), 1);
    let t = c.nft_token("t1".to_string()).unwrap();
    assert_eq!(t.owner_id, "bob");
}

#[test]
fn mint_duplicate_id_fails_and_changes_nothing() {
    let mut c = fresh_contract();
    c.nft_mint("t1".to_string(), "bob".to_string(), titled_meta("Sword"), 10, 4)
        .unwrap();
    let r = c.nft_mint("t1".to_string(), "carol".to_string(), titled_meta("Axe"), 10, 4);
    assert!(matches!(r, Err(NftError::TokenIdAlreadyExists)));
    let t = c.nft_token("t1".to_string()).unwrap();
    assert_eq!(t.owner_id, "bob");
    assert_eq!(t.metadata.title.as_deref(), Some("Sword"));
    assert_eq!(c.nft_total_supply(), 1);
}

#[test]
fn mint_insufficient_deposit_fails() {
    let mut c = fresh_contract();
    let r = c.nft_mint("t1".to_string(), "bob".to_string(), empty_meta(), 3, 4);
    assert!(matches!(r, Err(NftError::InsufficientDeposit)));
    assert_eq!(c.nft_total_supply(), 0);
    assert!(c.nft_token("t1".to_string()).is_none());
}

#[test]
fn transfer_by_owner_updates_owner_and_clears_approvals() {
    let mut c = fresh_contract();
    c.nft_mint("t1".to_string(), "bob".to_string(), empty_meta(), 5, 5)
        .unwrap();
    c.nft_approve("t1".to_string(), "dave".to_string(), None, "bob".to_string(), 1)
        .unwrap();
    c.nft_transfer(
        "carol".to_string(),
        "t1".to_string(),
        None,
        None,
        "bob".to_string(),
        1,
    )
    .unwrap();
    let t = c.nft_token("t1".to_string()).unwrap();
    assert_eq!(t.owner_id, "carol");
    assert!(t.approved_account_ids.is_empty());
    assert_eq!(
        c.nft_is_approved("t1".to_string(), "dave".to_string(), None),
        Ok(false)
    );
}

#[test]
fn transfer_by_stranger_fails_and_owner_is_kept() {
    let mut c = fresh_contract();
    c.nft_mint("t1".to_string(), "bob".to_string(), empty_meta(), 5, 5)
        .unwrap();
    let r = c.nft_transfer(
        "carol".to_string(),
        "t1".to_string(),
        None,
        None,
        "mallory".to_string(),
        1,
    );
    assert!(matches!(r, Err(NftError::SenderNotApproved)));
    assert_eq!(c.nft_token("t1".to_string()).unwrap().owner_id, "bob");
}

#[test]
fn transfer_needs_exactly_one_yocto() {
    let mut c = fresh_contract();
    c.nft_mint("t1".to_string(), "bob".to_string(), empty_meta(), 5, 5)
        .unwrap();
    let r = c.nft_transfer(
        "carol".to_string(),
        "t1".to_string(),
        None,
        None,
        "bob".to_string(),
        0,
    );
    assert!(matches!(r, Err(NftError::OneYoctoRequired)));
    let r = c.nft_transfer(
        "carol".to_string(),
        "t1".to_string(),
        None,
        None,
        "bob".to_string(),
        2,
    );
    assert!(matches!(r, Err(NftError::OneYoctoRequired)));
    assert_eq!(c.nft_token("t1".to_string()).unwrap().owner_id, "bob");
}

#[test]
fn transfer_unknown_token_fails() {
    let mut c = fresh_contract();
    let r = c.nft_transfer(
        "carol".to_string(),
        "nope".to_string(),
        None,
        None,
        "bob".to_string(),
        1,
    );
    assert!(matches!(r, Err(NftError::TokenNotFound)));
}

#[test]
fn transfer_to_current_owner_fails() {
    let mut c = fresh_contract();
    c.nft_mint("t1".to_string(), "bob".to_string(), empty_meta(), 5, 5)
        .unwrap();
    let r = c.nft_transfer(
        "bob".to_string(),
        "t1".to_string(),
        None,
        None,
        "bob".to_string(),
        1,
    );
    assert!(matches!(r, Err(NftError::OwnerAndReceiverEqual)));
}

#[test]
fn approved_account_may_transfer() {
    let mut c = fresh_contract();
    c.nft_mint("t1".to_string(), "bob".to_string(), empty_meta(), 5, 5)
        .unwrap();
    let receipt = c
        .nft_approve(
            "t1".to_string(),
            "carol".to_string(),
            Some("hello".to_string()),
            "bob".to_string(),
            1,
        )
        .unwrap()
        .unwrap();
    assert_eq!(receipt.account_id, "carol");
    assert_eq!(receipt.approval_id, 1);
    assert_eq!(receipt.msg, "hello");
    assert_eq!(
        c.nft_is_approved("t1".to_string(), "carol".to_string(), Some(1)),
        Ok(true)
    );
    c.nft_transfer(
        "dave".to_string(),
        "t1".to_string(),
        Some(1),
        None,
        "carol".to_string(),
        1,
    )
    .unwrap();
    assert_eq!(c.nft_token("t1".to_string()).unwrap().owner_id, "dave");
}

#[test]
fn transfer_with_wrong_approval_id_fails() {
    let mut c = fresh_contract();
    c.nft_mint("t1".to_string(), "bob".to_string(), empty_meta(), 5, 5)
        .unwrap();
    c.nft_approve("t1".to_string(), "carol".to_string(), None, "bob".to_string(), 1)
        .unwrap();
    let r = c.nft_transfer(
        "dave".to_string(),
        "t1".to_string(),
        Some(7),
        None,
        "carol".to_string(),
        1,
    );
    assert!(matches!(r, Err(NftError::ApprovalIdMismatch)));
    assert_eq!(c.nft_token("t1".to_string()).unwrap().owner_id, "bob");
}

#[test]
fn approve_then_revoke_round_trip() {
    let mut c = fresh_contract();
    c.nft_mint("t1".to_string(), "bob".to_string(), empty_meta(), 5, 5)
        .unwrap();
    c.nft_approve("t1".to_string(), "carol".to_string(), None, "bob".to_string(), 1)
        .unwrap();
    assert_eq!(
        c.nft_is_approved("t1".to_string(), "carol".to_string(), None),
        Ok(true)
    );
    c.nft_revoke("t1".to_string(), "carol".to_string(), "bob".to_string(), 1)
        .unwrap();
    assert_eq!(
        c.nft_is_approved("t1".to_string(), "carol".to_string(), None),
        Ok(false)
    );
    assert_eq!(
        c.nft_is_approved("t1".to_string(), "carol".to_string(), Some(1)),
        Ok(false)
    );
}

#[test]
fn approving_again_grants_a_fresh_id() {
    let mut c = fresh_contract();
    c.nft_mint("t1".to_string(), "bob".to_string(), empty_meta(), 5, 5)
        .unwrap();
    c.nft_approve("t1".to_string(), "carol".to_string(), None, "bob".to_string(), 1)
        .unwrap();
    c.nft_approve("t1".to_string(), "carol".to_string(), None, "bob".to_string(), 1)
        .unwrap();
    assert_eq!(
        c.nft_is_approved("t1".to_string(), "carol".to_string(), Some(1)),
        Ok(false)
    );
    assert_eq!(
        c.nft_is_approved("t1".to_string(), "carol".to_string(), Some(2)),
        Ok(true)
    );
}

#[test]
fn revoke_all_clears_every_approval() {
    let mut c = fresh_contract();
    c.nft_mint("t1".to_string(), "bob".to_string(), empty_meta(), 5, 5)
        .unwrap();
    c.nft_approve("t1".to_string(), "carol".to_string(), None, "bob".to_string(), 1)
        .unwrap();
    c.nft_approve("t1".to_string(), "dave".to_string(), None, "bob".to_string(), 1)
        .unwrap();
    c.nft_revoke_all("t1".to_string(), "bob".to_string(), 1).unwrap();
    assert_eq!(
        c.nft_is_approved("t1".to_string(), "carol".to_string(), None),
        Ok(false)
    );
    assert_eq!(
        c.nft_is_approved("t1".to_string(), "dave".to_string(), None),
        Ok(false)
    );
}

#[test]
fn approval_calls_check_their_guards() {
    let mut c = fresh_contract();
    c.nft_mint("t1".to_string(), "bob".to_string(), empty_meta(), 5, 5)
        .unwrap();
    assert!(matches!(
        c.nft_approve("t1".to_string(), "carol".to_string(), None, "bob".to_string(), 0),
        Err(NftError::DepositRequired)
    ));
    assert!(matches!(
        c.nft_approve("t1".to_string(), "carol".to_string(), None, "mallory".to_string(), 1),
        Err(NftError::NotTokenOwner)
    ));
    assert!(matches!(
        c.nft_approve("nope".to_string(), "carol".to_string(), None, "bob".to_string(), 1),
        Err(NftError::TokenNotFound)
    ));
    assert!(matches!(
        c.nft_revoke("t1".to_string(), "carol".to_string(), "bob".to_string(), 2),
        Err(NftError::OneYoctoRequired)
    ));
    assert!(matches!(
        c.nft_revoke("t1".to_string(), "carol".to_string(), "mallory".to_string(), 1),
        Err(NftError::NotTokenOwner)
    ));
    assert!(matches!(
        c.nft_revoke_all("t1".to_string(), "mallory".to_string(), 1),
        Err(NftError::NotTokenOwner)
    ));
    assert!(matches!(
        c.nft_is_approved("nope".to_string(), "carol".to_string(), None),
        Err(NftError::TokenNotFound)
    ));
}

#[test]
fn approval_ids_can_run_out() {
    let mut c = fresh_contract();
    c.nft_mint("t1".to_string(), "bob".to_string(), empty_meta(), 5, 5)
        .unwrap();
    c.tokens[0].next_approval_id = u64::MAX;
    let r = c.nft_approve("t1".to_string(), "carol".to_string(), None, "bob".to_string(), 1);
    assert!(matches!(r, Err(NftError::ApprovalIdsExhausted)));
}

#[test]
fn enumeration_matches_the_ledger() {
    let mut c = fresh_contract();
    c.nft_mint("t1".to_string(), "bob".to_string(), empty_meta(), 5, 5)
        .unwrap();
    c.nft_mint("t2".to_string(), "carol".to_string(), empty_meta(), 5, 5)
        .unwrap();
    c.nft_mint("t3".to_string(), "bob".to_string(), empty_meta(), 5, 5)
        .unwrap();
    assert_eq!(c.nft_total_supply(), 3);

    let all = c.nft_tokens(None, None).unwrap();
    let ids: Vec<&str> = all.iter().map(|t| t.token_id.as_str()).collect();
    assert_eq!(ids, vec!["t1", "t2", "t3"]);

    let page = c.nft_tokens(Some(1), Some(1)).unwrap();
    assert_eq!(page.len(), 1);
    assert_eq!(page[0].token_id, "t2");

    assert_eq!(c.nft_supply_for_owner("bob".to_string()), 2);
    assert_eq!(c.nft_supply_for_owner("carol".to_string()), 1);
    assert_eq!(c.nft_supply_for_owner("dave".to_string()), 0);

    let bobs = c.nft_tokens_for_owner("bob".to_string(), None, None).unwrap();
    let bob_ids: Vec<&str> = bobs.iter().map(|t| t.token_id.as_str()).collect();
    assert_eq!(bob_ids, vec!["t1", "t3"]);
    assert_eq!(bobs.len() as u128, c.nft_supply_for_owner("bob".to_string()));
    for t in &bobs {
        assert_eq!(t.owner_id, "bob");
    }

    let empty = c.nft_tokens_for_owner("dave".to_string(), None, None).unwrap();
    assert!(empty.is_empty());

    assert!(matches!(
        c.nft_tokens(None, Some(0)),
        Err(NftError::ZeroLimit)
    ));
    assert!(matches!(
        c.nft_tokens(Some(4), None),
        Err(NftError::IndexOutOfBounds)
    ));
    assert!(c.nft_tokens(Some(3), None).unwrap().is_empty());
    assert!(matches!(
        c.nft_tokens_for_owner("bob".to_string(), None, Some(0)),
        Err(NftError::ZeroLimit)
    ));
    assert!(matches!(
        c.nft_tokens_for_owner("bob".to_string(), Some(2), None),
        Err(NftError::IndexOutOfBounds)
    ));
    let second = c
        .nft_tokens_for_owner("bob".to_string(), Some(1), Some(5))
        .unwrap();
    assert_eq!(second.len(), 1);
    assert_eq!(second[0].token_id, "t3");
}

#[test]
fn metadata_is_unchanged_by_activity() {
    let mut c = fresh_contract();
    c.nft_mint("t1".to_string(), "bob".to_string(), titled_meta("Sword"), 5, 5)
        .unwrap();
    c.nft_transfer(
        "carol".to_string(),
        "t1".to_string(),
        None,
        None,
        "bob".to_string(),
        1,
    )
    .unwrap();
    let m = c.nft_metadata();
    assert_eq!(m.spec_version, "nft-1.0.0");
    assert_eq!(m.name, "Knight LEGACY NFT ");
    assert_eq!(m.symbol, "KLN");
}

#[test]
fn transfer_call_reports_what_the_host_needs() {
    let mut c = fresh_contract();
    c.nft_mint("t1".to_string(), "bob".to_string(), empty_meta(), 5, 5)
        .unwrap();
    c.nft_approve("t1".to_string(), "dave".to_string(), None, "bob".to_string(), 1)
        .unwrap();
    let receipt = c
        .nft_transfer_call(
            "carol".to_string(),
            "t1".to_string(),
            None,
            None,
            "payload".to_string(),
            "bob".to_string(),
            1,
        )
        .unwrap();
    assert_eq!(receipt.previous_owner_id, "bob");
    assert_eq!(receipt.msg, "payload");
    assert_eq!(receipt.previous_approvals.len(), 1);
    assert_eq!(receipt.previous_approvals[0].account_id, "dave");
    assert_eq!(c.nft_token("t1".to_string()).unwrap().owner_id, "carol");

    let r = c.nft_transfer_call(
        "bob".to_string(),
        "t1".to_string(),
        None,
        None,
        "payload".to_string(),
        "bob".to_string(),
        0,
    );
    assert!(matches!(r, Err(NftError::OneYoctoRequired)));
}

#[test]
fn scenario_alice_bob_carol() {
    // initialize with owner alice; mint "t1" to bob with title "Sword"
    let mut c = Contract::new_default_meta(false, "alice".to_string()).unwrap();
    c.nft_mint("t1".to_string(), "bob".to_string(), titled_meta("Sword"), 10, 4)
        .unwrap();
    // nft_token("t1") returns owner bob
    assert_eq!(c.nft_token("t1".to_string()).unwrap().owner_id, "bob");
    // alice tries to move bob's token to carol without approval: fails
    let r = c.nft_transfer(
        "carol".to_string(),
        "t1".to_string(),
        None,
        None,
        "alice".to_string(),
        1,
    );
    assert!(r.is_err());
    assert_eq!(c.nft_token("t1".to_string()).unwrap().owner_id, "bob");
    // bob transfers to carol: succeeds
    c.nft_transfer(
        "carol".to_string(),
        "t1".to_string(),
        None,
        None,
        "bob".to_string(),
        1,
    )
    .unwrap();
    // carol's holdings now include "t1"
    let carols = c
        .nft_tokens_for_owner("carol".to_string(), None, None)
        .unwrap();
    assert!(carols.iter().any(|t| t.token_id == "t1"));
}

#[test]
fn ledger_records_are_reported_faithfully() {
    let mut c = fresh_contract();
    let mut meta = titled_meta("Sword");
    meta.description = Some("sharp".to_string());
    meta.media = Some("https://img".to_string());
    meta.media_hash = Some(vec![9, 9]);
    meta.copies = Some(3);
    meta.extra = Some("x".to_string());
    c.nft_mint("t1".to_string(), "bob".to_string(), meta, 5, 5).unwrap();
    let t = c.nft_token("t1".to_string()).unwrap();
    assert_eq!(t.metadata.description.as_deref(), Some("sharp"));
    assert_eq!(t.metadata.media.as_deref(), Some("https://img"));
    assert_eq!(t.metadata.media_hash, Some(vec![9, 9]));
    assert_eq!(t.metadata.copies, Some(3));
    assert_eq!(t.metadata.extra.as_deref(), Some("x"));
    let rec: &TokenRec = &c.tokens[0];
    assert_eq!(rec.next_approval_id, 1);
}
