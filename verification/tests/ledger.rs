use carbonite_nft::errors::NftError;
use carbonite_nft::events::NftMintLog;
use carbonite_nft::internal::{
    bytes_for_approved_account_id, hash_account_id, refund_deposit, require_at_least_one_yocto,
    storage_delta,
};
use carbonite_nft::metadata::{CarboniteMetadata, Token, TokenMetadata};
use carbonite_nft::nft_core::NonFungibleTokenCore;
use carbonite_nft::{owner_namespace_key, royalty_to_payout, Contract, HostContext, StorageKey};

fn skills(pairs: &[(&str, u64)]) -> CarboniteMetadata {
    CarboniteMetadata {
        skills: pairs.iter().map(|(n, x)| (n.to_string(), *x)).collect(),
    }
}

fn sample_metadata() -> TokenMetadata {
    TokenMetadata {
        title: Some("First".to_string()),
        media: "ipfs://media".to_string(),
        media_hash: vec![1, 2, 3],
        carbonite_metadata: skills(&[]),
        total_xp: 0,
    }
}

fn sample_token(owner: &str) -> Token {
    Token {
        owner_id: owner.to_string(),
        approved_account_ids: Vec::new(),
        royalty: vec![("artist.near".to_string(), 2500u32)],
    }
}

fn populated_contract() -> Contract {
    let mut c = Contract::new_default_meta("admin.near".to_string());
    c.add_token("token-1".to_string(), sample_token("alice.near"), sample_metadata());
    c
}

fn ctx(caller: &str, attached: u128, byte_cost: u128, before: u64, after: u64) -> HostContext {
    HostContext {
        caller: caller.to_string(),
        attached_deposit: attached,
        storage_byte_cost: byte_cost,
        storage_usage_before: before,
        storage_usage_after: after,
    }
}

fn hex_bytes(hex: &str) -> Vec<u8> {
    let chars: Vec<char> = hex.chars().collect();
    chars
        .chunks(2)
        .map(|p| {
            (p[0].to_digit(16).unwrap() * 16 + p[1].to_digit(16).unwrap()) as u8
        })
        .collect()
}

// ---------------------------------------------------------------------------
// Event format
// ---------------------------------------------------------------------------

#[test]
fn batch_mint_events() {
    let expected = r#"EVENT_JSON:{"standard":"nep171","version":"1.0.0","event":"nft_mint","data":[{"owner_id":"foundation.near","token_ids":["aurora","proximitylabs"]},{"owner_id":"user1.near","token_ids":["meme"]}]}"#;

    let mint_logs = vec![
        NftMintLog {
            owner_id: "foundation.near".to_owned(),
            token_ids: vec!["aurora".to_string(), "proximitylabs".to_string()],
            memo: None,
        },
        NftMintLog {
            owner_id: "user1.near".to_owned(),
            token_ids: vec!["meme".to_string()],
            memo: None,
        },
    ];
    let line = NftMintLog::emit_line(mint_logs);
    assert_eq!(expected, line);
}

#[test]
fn mint_event_line_for_two_owners() {
    let expected = r#"EVENT_JSON:{"standard":"nep171","version":"1.0.0","event":"nft_mint","data":[{"owner_id":"foundation.x","token_ids":["aurora","proximitylabs"]},{"owner_id":"user1.x","token_ids":["meme"]}]}"#;

    let mint_logs = vec![
        NftMintLog {
            owner_id: "foundation.x".to_string(),
            token_ids: vec!["aurora".to_string(), "proximitylabs".to_string()],
            memo: None,
        },
        NftMintLog {
            owner_id: "user1.x".to_string(),
            token_ids: vec!["meme".to_string()],
            memo: None,
        },
    ];
    assert_eq!(expected, NftMintLog::emit_line(mint_logs));
}

#[test]
fn mint_event_with_memo_and_escapes() {
    let expected = "EVENT_JSON:{\"standard\":\"nep171\",\"version\":\"1.0.0\",\"event\":\"nft_mint\",\"data\":[{\"owner_id\":\"a\\\"b\\\\c\\nd\",\"token_ids\":[\"t\\u0001\"],\"memo\":\"hi\\tthere\"}]}";

    let mint_logs = vec![NftMintLog {
        owner_id: "a\"b\\c\nd".to_string(),
        token_ids: vec!["t\u{1}".to_string()],
        memo: Some("hi\tthere".to_string()),
    }];
    assert_eq!(expected, NftMintLog::emit_line(mint_logs));
}

// ---------------------------------------------------------------------------
// Royalty payout
// ---------------------------------------------------------------------------

#[test]
fn royalty_boundaries() {
    assert_eq!(royalty_to_payout(0, 123_456), 0);
    assert_eq!(royalty_to_payout(10_000, 123_456), 123_456);
    assert_eq!(royalty_to_payout(2_500, 10_000), 2_500);
}

#[test]
fn royalty_rounds_down() {
    assert_eq!(royalty_to_payout(1, 9_999), 0);
    assert_eq!(royalty_to_payout(3_333, 100), 33);
}

// ---------------------------------------------------------------------------
// Storage accounting
// ---------------------------------------------------------------------------

#[test]
fn storage_delta_clamps_to_zero() {
    assert_eq!(storage_delta(100, 160), 60);
    assert_eq!(storage_delta(160, 100), 0);
    assert_eq!(storage_delta(7, 7), 0);
}

#[test]
fn refund_is_exactly_the_surplus() {
    // required cost: 10 bytes * 3 = 30; attached 30 + k
    assert_eq!(refund_deposit(10, 3, 30 + 5), Ok(Some(5)));
    assert_eq!(refund_deposit(10, 3, 30 + 2), Ok(Some(2)));
}

#[test]
fn dust_refund_is_skipped() {
    assert_eq!(refund_deposit(10, 3, 30), Ok(None));
    assert_eq!(refund_deposit(10, 3, 31), Ok(None));
}

#[test]
fn insufficient_deposit_names_required_cost() {
    assert_eq!(
        refund_deposit(10, 3, 29),
        Err(NftError::InsufficientDeposit { required: 30 })
    );
}

#[test]
fn minimum_payment_guard() {
    assert_eq!(require_at_least_one_yocto(0), Err(NftError::PaymentRequired));
    assert_eq!(require_at_least_one_yocto(1), Ok(()));
}

#[test]
fn approved_account_bytes() {
    assert_eq!(bytes_for_approved_account_id(&"alice".to_string()), 5 + 4 + 8);
}

// ---------------------------------------------------------------------------
// Namespacing
// ---------------------------------------------------------------------------

#[test]
fn storage_key_tags() {
    assert_eq!(StorageKey::TokensPerOwner.key_bytes(), vec![0u8]);
    assert_eq!(StorageKey::TokensById.key_bytes(), vec![2u8]);
    assert_eq!(StorageKey::TokenMetadataById.key_bytes(), vec![3u8]);
    let inner = StorageKey::TokenPerOwnerInner {
        account_id_hash: vec![9u8; 32],
    };
    let mut expected = vec![1u8];
    expected.extend([9u8; 32]);
    assert_eq!(inner.key_bytes(), expected);
}

#[test]
fn owner_namespace_is_tag_plus_sha256() {
    let account = "The phrase that will be hashed".to_string();
    let mut expected = vec![1u8];
    expected.extend(hex_bytes(
        "7fc38bc74a0d0e592d2b8381839adc2649007d5bca11f92eeddef78681b4e3a3",
    ));
    assert_eq!(owner_namespace_key(&account), expected);
}

#[test]
fn owner_namespace_has_fixed_size() {
    let long_account = "a-very-long-account-identifier-that-goes-on-and-on.something.near".to_string();
    assert_eq!(owner_namespace_key(&long_account).len(), 33);
    assert_eq!(hash_account_id(&long_account).len(), 32);
}

// ---------------------------------------------------------------------------
// Owner index
// ---------------------------------------------------------------------------

#[test]
fn add_token_indexes_the_owner() {
    let c = populated_contract();
    assert!(c.tokens_per_owner.contains_key("alice.near"));
    let entry = c.tokens_per_owner.get("alice.near").unwrap();
    assert_eq!(entry.token_ids, vec!["token-1".to_string()]);
    assert_eq!(entry.namespace.len(), 33);
}

#[test]
fn index_add_is_idempotent() {
    let mut c = populated_contract();
    c.internal_add_token_to_owner(&"alice.near".to_string(), &"token-1".to_string());
    let entry = c.tokens_per_owner.get("alice.near").unwrap();
    assert_eq!(entry.token_ids.len(), 1);
}

#[test]
fn removing_last_token_deletes_the_entry() {
    let mut c = populated_contract();
    let r = c.internal_remove_token_from_owner(&"alice.near".to_string(), &"token-1".to_string());
    assert_eq!(r, Ok(()));
    assert!(!c.tokens_per_owner.contains_key("alice.near"));
}

#[test]
fn removing_one_of_two_tokens_keeps_the_entry() {
    let mut c = populated_contract();
    c.add_token("token-2".to_string(), sample_token("alice.near"), sample_metadata());
    let r = c.internal_remove_token_from_owner(&"alice.near".to_string(), &"token-1".to_string());
    assert_eq!(r, Ok(()));
    let entry = c.tokens_per_owner.get("alice.near").unwrap();
    assert_eq!(entry.token_ids, vec!["token-2".to_string()]);
}

#[test]
fn removing_from_unknown_owner_is_an_invariant_violation() {
    let mut c = populated_contract();
    let r = c.internal_remove_token_from_owner(&"nobody.near".to_string(), &"token-1".to_string());
    assert_eq!(r, Err(NftError::InvariantViolation));
}

// ---------------------------------------------------------------------------
// Token views
// ---------------------------------------------------------------------------

#[test]
fn nft_token_returns_the_record() {
    let c = populated_contract();
    let json = c.nft_token("token-1".to_string()).unwrap();
    assert_eq!(json.token_id, "token-1");
    assert_eq!(json.owner_id, "alice.near");
    assert_eq!(json.metadata.media, "ipfs://media");
    assert_eq!(json.royalty, vec![("artist.near".to_string(), 2500u32)]);
}

#[test]
fn nft_token_missing_is_none() {
    let c = populated_contract();
    assert!(c.nft_token("no-such-token".to_string()).is_none());
}

#[test]
fn default_metadata_fields() {
    let c = Contract::new_default_meta("admin.near".to_string());
    let m = c.metadata.unwrap();
    assert_eq!(m.spec_version, "nft-1.0.0");
    assert_eq!(m.name, "Carbonite NFT Contract");
    assert_eq!(m.symbol, "CARBONITE");
    assert!(m.icon.is_none());
    assert_eq!(m.base_uri, "ipfs");
    assert_eq!(m.reference, "ipfs://example.com/hash");
    assert_eq!(m.reference_hash, vec![5u8; 32]);
}

// ---------------------------------------------------------------------------
// Metadata mutation
// ---------------------------------------------------------------------------

#[test]
fn update_recomputes_total_xp_from_scratch() {
    let mut c = populated_contract();
    let host = ctx("admin.near", 1_000_000, 1, 100, 150);

    let r = c.update_carbonite_metadata(
        "token-1".to_string(),
        skills(&[("a", 3), ("b", 5)]),
        &host,
    );
    assert!(r.is_ok());
    assert_eq!(c.nft_token("token-1".to_string()).unwrap().metadata.total_xp, 8);

    let r = c.update_carbonite_metadata("token-1".to_string(), skills(&[("c", 1)]), &host);
    assert!(r.is_ok());
    let md = c.nft_token("token-1".to_string()).unwrap().metadata;
    assert_eq!(md.total_xp, 1);
    assert_eq!(md.carbonite_metadata.skills, vec![("c".to_string(), 1u64)]);
}

#[test]
fn update_refunds_the_exact_surplus() {
    let mut c = populated_contract();
    // 50 bytes at cost 2 => required 100; attached 107 => refund 7
    let host = ctx("admin.near", 107, 2, 100, 150);
    let r = c.update_carbonite_metadata("token-1".to_string(), skills(&[("a", 1)]), &host);
    assert_eq!(r, Ok(Some(7)));
}

#[test]
fn unauthorized_update_leaves_stores_unchanged() {
    let mut c = populated_contract();
    let before = c.nft_token("token-1".to_string()).unwrap().metadata;
    let host = ctx("mallory.near", 1_000_000, 1, 100, 150);
    let r = c.update_carbonite_metadata(
        "token-1".to_string(),
        skills(&[("a", 3)]),
        &host,
    );
    assert_eq!(r, Err(NftError::Unauthorized));
    let after = c.nft_token("token-1".to_string()).unwrap().metadata;
    assert_eq!(after.total_xp, before.total_xp);
    assert_eq!(after.carbonite_metadata.skills, before.carbonite_metadata.skills);
}

#[test]
fn update_of_missing_token_is_not_found() {
    let mut c = populated_contract();
    let host = ctx("admin.near", 1_000_000, 1, 100, 150);
    let r = c.update_carbonite_metadata("ghost".to_string(), skills(&[]), &host);
    assert_eq!(r, Err(NftError::NotFound));
}

#[test]
fn update_without_payment_is_rejected() {
    let mut c = populated_contract();
    let host = ctx("admin.near", 0, 1, 100, 150);
    let r = c.update_carbonite_metadata("token-1".to_string(), skills(&[]), &host);
    assert_eq!(r, Err(NftError::PaymentRequired));
}

#[test]
fn underpaid_update_is_rejected_and_mutates_nothing() {
    let mut c = populated_contract();
    // 50 bytes at cost 2 => required 100, attached 99
    let host = ctx("admin.near", 99, 2, 100, 150);
    let before = c.nft_token("token-1".to_string()).unwrap().metadata;
    let r = c.update_carbonite_metadata(
        "token-1".to_string(),
        skills(&[("a", 3)]),
        &host,
    );
    assert_eq!(r, Err(NftError::InsufficientDeposit { required: 100 }));
    let after = c.nft_token("token-1".to_string()).unwrap().metadata;
    assert_eq!(after.carbonite_metadata.skills, before.carbonite_metadata.skills);
    assert_eq!(after.total_xp, before.total_xp);
}

#[test]
fn customize_replaces_media_and_tolerates_shrinking() {
    let mut c = populated_contract();
    // storage shrank: delta clamps to zero, required 0, attached 9 => refund 9
    let host = ctx("admin.near", 9, 2, 200, 150);
    let r = c.customize_nft(
        "token-1".to_string(),
        "ipfs://new-media".to_string(),
        vec![7, 8, 9],
        &host,
    );
    assert_eq!(r, Ok(Some(9)));
    let md = c.nft_token("token-1".to_string()).unwrap().metadata;
    assert_eq!(md.media, "ipfs://new-media");
    assert_eq!(md.media_hash, vec![7, 8, 9]);
    // untouched fields stay
    assert_eq!(md.title, Some("First".to_string()));
    assert_eq!(md.total_xp, 0);
}

#[test]
fn customize_by_non_admin_is_rejected() {
    let mut c = populated_contract();
    let host = ctx("mallory.near", 10, 1, 100, 100);
    let r = c.customize_nft(
        "token-1".to_string(),
        "x".to_string(),
        vec![],
        &host,
    );
    assert_eq!(r, Err(NftError::Unauthorized));
    assert_eq!(
        c.nft_token("token-1".to_string()).unwrap().metadata.media,
        "ipfs://media"
    );
}
