use anchor_lang::prelude::Pubkey;
use auto_verify_nft::address::Address;
use auto_verify_nft::authority::{derive_collection_authority, COLLECTION_AUTHORITY_SEED, MAX_COLLECTION_SEED_LENGTH};
use auto_verify_nft::error::{AutoVerifyError, LedgerError};
use auto_verify_nft::ledger::{CollectionRef, Creator, Ledger, MetadataAccount, MintAccount, TokenAccount};
use auto_verify_nft::pipeline::{
    initialize_collection, mint_and_verify_nft, new_collection_record, new_item_record, update_collection_authority, CollectionMetadata, InitializeCollection,
    MintAndVerifyNft, NftMetadata, UpdateCollectionAuthority,
};

fn addr(b: u8) -> Address {
    Address::new([b; 32])
}

fn program() -> Address {
    addr(7)
}

fn collection_md(name: &str, symbol: &str, fee: u16) -> CollectionMetadata {
    CollectionMetadata {
        name: name.to_string(),
        symbol: symbol.to_string(),
        uri: "https://example.com/genesis.json".to_string(),
        seller_fee_basis_points: fee,
    }
}

fn nft_md(name: &str) -> NftMetadata {
    NftMetadata {
        name: name.to_string(),
        symbol: "GEN".to_string(),
        uri: "https://example.com/1.json".to_string(),
        seller_fee_basis_points: 500,
    }
}

fn boot_ctx(mint: u8) -> InitializeCollection {
    InitializeCollection { admin: addr(1), collection_mint: addr(mint), program_id: program() }
}

fn item_ctx(nft: u8, collection: u8) -> MintAndVerifyNft {
    MintAndVerifyNft { user: addr(3), nft_mint: addr(nft), collection_mint: addr(collection), program_id: program() }
}

fn bootstrapped(seed: &str) -> Ledger {
    let mut ledger = Ledger::new();
    let r = initialize_collection(&mut ledger, &boot_ctx(2), seed.to_string(), collection_md("Genesis", "GEN", 500));
    assert_eq!(r, Ok(()));
    ledger
}

fn counts(l: &Ledger) -> (usize, usize, usize) {
    (l.mints.len(), l.holdings.len(), l.records.len())
}

#[test]
fn genesis_scenario() {
    let mut ledger = bootstrapped("GEN1");
    let (authority, _) = derive_collection_authority("GEN1", &program()).unwrap();
    assert_eq!(ledger.mints, vec![MintAccount { address: addr(2), authority: addr(1), freeze_authority: addr(1), decimals: 0, supply: 1 }]);
    assert_eq!(ledger.holdings, vec![TokenAccount { mint: addr(2), owner: addr(1), amount: 1 }]);
    let c = &ledger.records[0];
    assert_eq!(c.update_authority, authority);
    assert_eq!(c.name, "Genesis");
    assert_eq!(c.symbol, "GEN");
    assert_eq!(c.seller_fee_basis_points, 500);
    assert_eq!(c.creators, vec![Creator { address: addr(1), verified: false, share: 100 }]);
    assert_eq!(c.collection, None);
    assert_eq!(c.max_supply, Some(0));

    let r = mint_and_verify_nft(&mut ledger, &item_ctx(4, 2), "GEN1".to_string(), nft_md("Genesis #1"));
    assert_eq!(r, Ok(()));
    let item = &ledger.records[1];
    assert_eq!(item.mint, addr(4));
    assert_eq!(item.update_authority, addr(3));
    assert_eq!(item.name, "Genesis #1");
    assert_eq!(item.creators, vec![Creator { address: addr(3), verified: true, share: 100 }]);
    assert_eq!(item.collection, Some(CollectionRef { key: addr(2), verified: true }));
    assert_eq!(item.max_supply, Some(0));
    assert_eq!(ledger.holdings[1], TokenAccount { mint: addr(4), owner: addr(3), amount: 1 });

    let before = counts(&ledger);
    let again = mint_and_verify_nft(&mut ledger, &item_ctx(4, 2), "GEN1".to_string(), nft_md("Genesis #2"));
    assert_eq!(again, Err(LedgerError::AccountInUse));
    assert_eq!(counts(&ledger), before);
    assert_eq!(ledger.records[1].name, "Genesis #1");
}

#[test]
fn derivation_matches_runtime_derivation() {
    let (authority, bump) = derive_collection_authority("GEN1", &program()).unwrap();
    let (expected, expected_bump) = Pubkey::find_program_address(
        &[COLLECTION_AUTHORITY_SEED.as_bytes(), b"GEN1"],
        &Pubkey::new_from_array([7u8; 32]),
    );
    assert_eq!(authority.bytes, expected.to_bytes());
    assert_eq!(bump, expected_bump);
    assert_ne!(authority.bytes, [7u8; 32]);
}

#[test]
fn derivation_is_deterministic() {
    let a = derive_collection_authority("GEN1", &program());
    let b = derive_collection_authority("GEN1", &program());
    assert_eq!(a, b);
}

#[test]
fn different_seeds_give_different_authorities() {
    let (a, _) = derive_collection_authority("GEN1", &program()).unwrap();
    let (b, _) = derive_collection_authority("GEN2", &program()).unwrap();
    assert_ne!(a, b);
    let (c, _) = derive_collection_authority("GEN1", &addr(8)).unwrap();
    assert_ne!(a, c);
}

#[test]
fn seed_length_limit() {
    let longest = "s".repeat(MAX_COLLECTION_SEED_LENGTH);
    assert!(derive_collection_authority(&longest, &program()).is_ok());
    let too_long = "s".repeat(MAX_COLLECTION_SEED_LENGTH + 1);
    assert_eq!(derive_collection_authority(&too_long, &program()), Err(AutoVerifyError::InvalidCollectionSeed));
    let empty = derive_collection_authority("", &program());
    assert!(empty.is_ok());
}

#[test]
fn bootstrap_rejects_long_seed() {
    let mut ledger = Ledger::new();
    let r = initialize_collection(&mut ledger, &boot_ctx(2), "x".repeat(33), collection_md("Genesis", "GEN", 500));
    assert_eq!(r, Err(LedgerError::Program(AutoVerifyError::InvalidCollectionSeed)));
    assert_eq!(counts(&ledger), (0, 0, 0));
}

#[test]
fn bootstrap_rejects_oversized_metadata() {
    let cases = vec![
        collection_md(&"n".repeat(33), "GEN", 500),
        collection_md("Genesis", &"S".repeat(11), 500),
        collection_md("Genesis", "GEN", 10001),
        CollectionMetadata {
            name: "Genesis".to_string(),
            symbol: "GEN".to_string(),
            uri: "u".repeat(201),
            seller_fee_basis_points: 0,
        },
    ];
    for md in cases {
        let mut ledger = Ledger::new();
        let r = initialize_collection(&mut ledger, &boot_ctx(2), "GEN1".to_string(), md);
        assert_eq!(r, Err(LedgerError::Program(AutoVerifyError::MetadataCreationFailed)));
        assert_eq!(counts(&ledger), (0, 0, 0));
    }
}

#[test]
fn bootstrap_accepts_metadata_at_limits() {
    let mut ledger = Ledger::new();
    let md = CollectionMetadata {
        name: "n".repeat(32),
        symbol: "S".repeat(10),
        uri: "u".repeat(200),
        seller_fee_basis_points: 10000,
    };
    assert!(md.is_valid());
    let r = initialize_collection(&mut ledger, &boot_ctx(2), "GEN1".to_string(), md);
    assert_eq!(r, Ok(()));
}

#[test]
fn metadata_limit_counts_bytes() {
    let md = NftMetadata {
        name: "é".repeat(17),
        symbol: "GEN".to_string(),
        uri: String::new(),
        seller_fee_basis_points: 0,
    };
    assert!(!md.is_valid());
    let md = NftMetadata { name: "é".repeat(16), ..md };
    assert!(md.is_valid());
}

#[test]
fn bootstrap_twice_with_same_seed_fails() {
    let mut ledger = bootstrapped("GEN1");
    let before = counts(&ledger);
    let r = initialize_collection(&mut ledger, &boot_ctx(5), "GEN1".to_string(), collection_md("Other", "OTH", 0));
    assert_eq!(r, Err(LedgerError::AccountInUse));
    assert_eq!(counts(&ledger), before);
    assert_eq!(ledger.records[0].name, "Genesis");
}

#[test]
fn bootstrap_on_used_mint_fails() {
    let mut ledger = bootstrapped("GEN1");
    let r = initialize_collection(&mut ledger, &boot_ctx(2), "GEN2".to_string(), collection_md("Other", "OTH", 0));
    assert_eq!(r, Err(LedgerError::AccountInUse));
    assert_eq!(counts(&ledger), (1, 1, 1));
}

#[test]
fn two_collections_with_different_seeds() {
    let mut ledger = bootstrapped("GEN1");
    let r = initialize_collection(&mut ledger, &boot_ctx(5), "GEN2".to_string(), collection_md("Other", "OTH", 0));
    assert_eq!(r, Ok(()));
    assert_eq!(counts(&ledger), (2, 2, 2));
    let r = mint_and_verify_nft(&mut ledger, &item_ctx(6, 5), "GEN2".to_string(), nft_md("Other #1"));
    assert_eq!(r, Ok(()));
    assert_eq!(ledger.records[2].collection, Some(CollectionRef { key: addr(5), verified: true }));
}

#[test]
fn issue_with_other_seed_fails_and_leaves_nothing() {
    let mut ledger = bootstrapped("GEN1");
    let before = counts(&ledger);
    let r = mint_and_verify_nft(&mut ledger, &item_ctx(4, 2), "GEN2".to_string(), nft_md("Genesis #1"));
    assert_eq!(r, Err(LedgerError::Program(AutoVerifyError::VerificationFailed)));
    assert_eq!(counts(&ledger), before);
    assert!(!ledger.contains_mint(&addr(4)));
    assert!(ledger.holdings.iter().all(|h| h.mint != addr(4)));
    assert!(ledger.records.iter().all(|r| r.mint != addr(4)));
}

#[test]
fn issue_against_unknown_collection_fails() {
    let mut ledger = bootstrapped("GEN1");
    let r = mint_and_verify_nft(&mut ledger, &item_ctx(4, 9), "GEN1".to_string(), nft_md("Genesis #1"));
    assert_eq!(r, Err(LedgerError::Program(AutoVerifyError::VerificationFailed)));
    assert_eq!(counts(&ledger), (1, 1, 1));
}

#[test]
fn issue_rejects_bad_input() {
    let mut ledger = bootstrapped("GEN1");
    let r = mint_and_verify_nft(&mut ledger, &item_ctx(4, 2), "GEN1".to_string(), nft_md(&"n".repeat(33)));
    assert_eq!(r, Err(LedgerError::Program(AutoVerifyError::MetadataCreationFailed)));
    let r = mint_and_verify_nft(&mut ledger, &item_ctx(4, 2), "g".repeat(40), nft_md("Genesis #1"));
    assert_eq!(r, Err(LedgerError::Program(AutoVerifyError::InvalidCollectionSeed)));
    let r = mint_and_verify_nft(&mut ledger, &item_ctx(2, 2), "GEN1".to_string(), nft_md("Genesis #1"));
    assert_eq!(r, Err(LedgerError::AccountInUse));
    assert_eq!(counts(&ledger), (1, 1, 1));
}

#[test]
fn issuance_leaves_collection_record_unchanged() {
    let mut ledger = bootstrapped("GEN1");
    for n in 0..3u8 {
        let r = mint_and_verify_nft(&mut ledger, &item_ctx(10 + n, 2), "GEN1".to_string(), nft_md("Genesis"));
        assert_eq!(r, Ok(()));
    }
    let _ = mint_and_verify_nft(&mut ledger, &item_ctx(20, 2), "GEN9".to_string(), nft_md("Genesis"));
    let c = &ledger.records[0];
    assert_eq!(c.name, "Genesis");
    assert_eq!(c.symbol, "GEN");
    assert_eq!(c.collection, None);
    assert_eq!(counts(&ledger), (4, 4, 4));
}

#[test]
fn authority_update_is_acknowledged() {
    let ctx = UpdateCollectionAuthority { admin: addr(1), program_id: program() };
    assert_eq!(update_collection_authority(&ctx, "GEN1".to_string(), addr(9)), Ok(()));
    assert_eq!(update_collection_authority(&ctx, "s".repeat(32), addr(9)), Ok(()));
}

#[test]
fn authority_update_rejects_long_seed() {
    let ctx = UpdateCollectionAuthority { admin: addr(1), program_id: program() };
    assert_eq!(
        update_collection_authority(&ctx, "s".repeat(33), addr(9)),
        Err(LedgerError::Program(AutoVerifyError::InvalidCollectionSeed))
    );
}

#[test]
fn record_builders() {
    let c = new_collection_record(&boot_ctx(2), addr(8), collection_md("Genesis", "GEN", 500));
    assert_eq!(c.mint, addr(2));
    assert_eq!(c.update_authority, addr(8));
    assert_eq!(c.name, "Genesis");
    assert_eq!(c.creators, vec![Creator { address: addr(1), verified: false, share: 100 }]);
    assert_eq!(c.collection, None);
    assert!(c.is_mutable);
    assert_eq!(c.max_supply, None);
    let i = new_item_record(&item_ctx(4, 2), nft_md("Genesis #1"));
    assert_eq!(i.mint, addr(4));
    assert_eq!(i.update_authority, addr(3));
    assert_eq!(i.symbol, "GEN");
    assert_eq!(i.seller_fee_basis_points, 500);
    assert_eq!(i.creators, vec![Creator { address: addr(3), verified: true, share: 100 }]);
    assert_eq!(i.collection, Some(CollectionRef { key: addr(2), verified: false }));
    assert_eq!(i.max_supply, None);
}

#[test]
fn ledger_primitives_report_errors() {
    let mut ledger = Ledger::new();
    assert_eq!(ledger.create_unit(addr(4), 0, addr(3), addr(5)), Ok(()));
    assert_eq!(ledger.create_unit(addr(4), 0, addr(3), addr(5)), Err(LedgerError::AccountInUse));
    assert_eq!(ledger.mints[0], MintAccount { address: addr(4), authority: addr(3), freeze_authority: addr(5), decimals: 0, supply: 0 });
    assert_eq!(ledger.mint_to(addr(4), addr(3), addr(1)), Err(LedgerError::Program(AutoVerifyError::Unauthorized)));
    assert_eq!(ledger.mint_to(addr(9), addr(3), addr(3)), Err(LedgerError::Program(AutoVerifyError::Unauthorized)));
    assert_eq!(ledger.mint_to(addr(4), addr(3), addr(3)), Ok(()));
    assert_eq!(ledger.mints[0].supply, 1);
    assert_eq!(ledger.holdings, vec![TokenAccount { mint: addr(4), owner: addr(3), amount: 1 }]);
    assert_eq!(ledger.mint_to(addr(4), addr(6), addr(3)), Err(LedgerError::AccountInUse));
    assert_eq!(ledger.holdings.len(), 1);
    let rec = |mint: Address| MetadataAccount {
        mint,
        update_authority: addr(3),
        name: "x".to_string(),
        symbol: "X".to_string(),
        uri: String::new(),
        seller_fee_basis_points: 0,
        creators: vec![],
        collection: Some(CollectionRef { key: addr(2), verified: false }),
        is_mutable: true,
        max_supply: None,
    };
    assert_eq!(
        ledger.register(rec(addr(9))),
        Err(LedgerError::Program(AutoVerifyError::MetadataCreationFailed))
    );
    assert_eq!(ledger.register(rec(addr(4))), Ok(()));
    assert_eq!(ledger.register(rec(addr(4))), Err(LedgerError::AccountInUse));
    assert_eq!(ledger.seal_last(&addr(1), 0), Err(LedgerError::Program(AutoVerifyError::Unauthorized)));
    assert_eq!(ledger.seal_last(&addr(3), 0), Ok(()));
    assert_eq!(ledger.records[0].max_supply, Some(0));
    assert_eq!(
        ledger.verify_last_membership(&addr(2), &addr(3)),
        Err(LedgerError::Program(AutoVerifyError::VerificationFailed))
    );
    ledger.rollback_last();
    assert_eq!(counts(&ledger), (0, 0, 0));
}

#[test]
fn address_comparison() {
    let mut b = [1u8; 32];
    assert!(addr(1).same_as(&Address::new(b)));
    b[31] = 2;
    assert!(!addr(1).same_as(&Address::new(b)));
}
