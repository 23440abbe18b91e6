use hashkey_did::api::{
    add_kyc, addr_to_tokenid, did_to_tokenid, dip721_balance_of, dip721_custodians,
    dip721_cycles, dip721_logo, dip721_metadata, dip721_mint, dip721_mint_traps, dip721_name,
    dip721_owner_of, dip721_owner_token_identifiers, dip721_owner_token_metadata,
    dip721_set_custodians, dip721_set_logo, dip721_set_name, dip721_set_symbol, dip721_stats,
    dip721_supported_interfaces, dip721_symbol, dip721_token_metadata, dip721_total_supply,
    dip721_total_transactions, dip721_total_unique_holders, get_kyc, is_canister_custodian,
    tokenid_to_did,
};
use hashkey_did::keymap::{KeyMap, KeySet};
use hashkey_did::ledger::Ledger;
use hashkey_did::natural::Nat;
use hashkey_did::principal::{LedgerKey, Principal};
use hashkey_did::types::{
    GenericValue, InitArgs, KYCInfo, NftError, Stats, SupportedInterface, TokenMetadata,
};

fn n(x: u64) -> Nat {
    Nat::from_u64(x)
}

fn principal(bytes: &[u8]) -> Principal {
    Principal::from_slice(bytes).unwrap()
}

fn did_props(did: &str) -> Vec<(String, GenericValue)> {
    vec![
        ("name".to_string(), GenericValue::TextContent("x".to_string())),
        ("did".to_string(), GenericValue::TextContent(did.to_string())),
    ]
}

fn record(id: u64, owner: Principal) -> TokenMetadata {
    TokenMetadata {
        did: None,
        token_identifier: n(id),
        owner: Some(owner),
        operator: None,
        is_burned: false,
        properties: vec![],
        minted_at: 0,
        minted_by: owner,
        transferred_at: None,
        transferred_by: None,
        approved_at: None,
        approved_by: None,
        burned_at: None,
        burned_by: None,
    }
}

fn verify(did: &str) -> bool {
    let mut ledger = Ledger::default();
    ledger.verify_did_format(&did.to_string())
}

#[test]
fn did_format_accepts_digits_and_lower_case_letters_before_icp() {
    assert!(verify("alice.icp"));
    assert!(verify("a1b2c3.icp"));
    assert!(verify("0.icp"));
    assert!(verify(&format!("{}.icp", "a".repeat(50))));
}

#[test]
fn did_format_rejects_bad_lengths() {
    assert!(!verify(".icp"));
    assert!(!verify(""));
    assert!(!verify(&format!("{}.icp", "a".repeat(51))));
}

#[test]
fn did_format_rejects_bad_characters_and_suffixes() {
    assert!(!verify("Alice.icp"));
    assert!(!verify("ali-ce.icp"));
    assert!(!verify("ali_ce.icp"));
    assert!(!verify("alice.key"));
    assert!(!verify("alice.ICP"));
    assert!(!verify("alicexicp"));
    assert!(!verify("é.icp"));
    assert!(!verify("ali ce.icp"));
}

#[test]
fn did_format_leaves_the_ledger_alone() {
    let mut ledger = Ledger::default();
    assert!(ledger.verify_did_format(&"alice.icp".to_string()));
    assert_eq!(ledger.tokens_count(), 0);
    assert_eq!(ledger.tx_count(), n(0));
}

#[test]
fn principal_holds_at_most_29_bytes() {
    assert!(Principal::from_slice(&[7u8; 29]).is_some());
    assert!(Principal::from_slice(&[7u8; 30]).is_none());
    let p = principal(&[1, 2, 3]);
    assert_eq!(p.to_vec(), vec![1, 2, 3]);
    assert!(p.same_key(&principal(&[1, 2, 3])));
    assert!(!p.same_key(&principal(&[1, 2])));
    assert!(!p.same_key(&principal(&[1, 2, 4])));
    assert!(principal(&[]).same_key(&principal(&[])));
}

#[test]
fn mint_records_the_token_and_its_indexes() {
    let mut ledger = Ledger::default();
    let caller = principal(&[9]);
    let to = principal(&[1]);
    let r = dip721_mint(&mut ledger, caller, 100, to, n(7), did_props("alice.icp"));
    assert_eq!(r, Ok(n(0)));
    assert!(ledger.is_token_existed(&n(7)));
    assert_eq!(dip721_total_supply(&ledger), 1);
    assert_eq!(dip721_total_transactions(&ledger), n(1));
    assert_eq!(dip721_total_unique_holders(&ledger), 1);
    assert_eq!(dip721_owner_of(&ledger, n(7)), Ok(Some(to)));
    assert_eq!(dip721_balance_of(&ledger, to), Ok(1));
    assert_eq!(did_to_tokenid(&ledger, "alice.icp".to_string()), n(7));
    assert_eq!(tokenid_to_did(&ledger, n(7)), Some("alice.icp".to_string()));
    assert_eq!(addr_to_tokenid(&ledger, to), n(7));
    assert!(ledger.is_did_claimed(Some("alice.icp")));
    assert!(!ledger.is_did_claimed(Some("bob.icp")));
    assert!(!ledger.is_did_claimed(None));
    let t = dip721_token_metadata(&ledger, n(7)).unwrap();
    assert_eq!(t.did, Some("alice.icp".to_string()));
    assert_eq!(t.token_identifier, n(7));
    assert_eq!(t.owner, Some(to));
    assert_eq!(t.operator, None);
    assert!(!t.is_burned);
    assert_eq!(t.minted_at, 100);
    assert_eq!(t.minted_by, caller);
    assert_eq!(t.properties, did_props("alice.icp"));
    assert_eq!(t.transferred_at, None);
    assert_eq!(t.burned_by, None);
    let ids = dip721_owner_token_identifiers(&ledger, to).unwrap();
    assert_eq!(ids.len(), 1);
    assert!(ids.contains(&n(7)));
}

#[test]
fn mints_are_numbered_consecutively() {
    let mut ledger = Ledger::default();
    let caller = principal(&[9]);
    assert_eq!(
        dip721_mint(&mut ledger, caller, 1, principal(&[1]), n(10), did_props("a.icp")),
        Ok(n(0))
    );
    assert_eq!(
        dip721_mint(&mut ledger, caller, 2, principal(&[2]), n(20), did_props("b.icp")),
        Ok(n(1))
    );
    assert_eq!(
        dip721_mint(&mut ledger, caller, 3, principal(&[3]), n(30), did_props("c.icp")),
        Ok(n(2))
    );
    assert_eq!(dip721_total_supply(&ledger), 3);
    assert_eq!(dip721_total_transactions(&ledger), n(3));
    assert_eq!(dip721_total_unique_holders(&ledger), 3);
}

#[test]
fn mint_refuses_an_existing_token() {
    let mut ledger = Ledger::default();
    let caller = principal(&[9]);
    assert!(dip721_mint(&mut ledger, caller, 1, principal(&[1]), n(10), did_props("a.icp")).is_ok());
    let r = dip721_mint(&mut ledger, caller, 2, principal(&[2]), n(10), did_props("b.icp"));
    assert_eq!(r, Err(NftError::ExistedNFT));
    assert_eq!(dip721_total_transactions(&ledger), n(1));
    assert!(!ledger.is_did_claimed(Some("b.icp")));
}

#[test]
fn mint_refuses_a_second_claim_by_the_same_address() {
    let mut ledger = Ledger::default();
    let caller = principal(&[9]);
    let to = principal(&[1]);
    assert!(dip721_mint(&mut ledger, caller, 1, to, n(10), did_props("a.icp")).is_ok());
    let r = dip721_mint(&mut ledger, caller, 2, to, n(11), did_props("b.icp"));
    assert_eq!(r, Err(NftError::AlreadyClaim));
    assert!(!ledger.is_token_existed(&n(11)));
}

#[test]
fn mint_refuses_a_did_already_minted() {
    let mut ledger = Ledger::default();
    let caller = principal(&[9]);
    assert!(dip721_mint(&mut ledger, caller, 1, principal(&[1]), n(10), did_props("a.icp")).is_ok());
    let r = dip721_mint(&mut ledger, caller, 2, principal(&[2]), n(11), did_props("a.icp"));
    assert_eq!(r, Err(NftError::ExistedDID));
    assert_eq!(dip721_total_supply(&ledger), 1);
}

#[test]
fn mint_refuses_a_missing_did() {
    let mut ledger = Ledger::default();
    let caller = principal(&[9]);
    let no_did = vec![("name".to_string(), GenericValue::TextContent("x".to_string()))];
    assert_eq!(
        dip721_mint(&mut ledger, caller, 1, principal(&[1]), n(10), no_did),
        Err(NftError::MissingDid)
    );
    let did_not_text = vec![("did".to_string(), GenericValue::Nat64Content(5))];
    assert_eq!(
        dip721_mint(&mut ledger, caller, 1, principal(&[1]), n(10), did_not_text),
        Err(NftError::MissingDid)
    );
    assert_eq!(dip721_total_supply(&ledger), 0);
}

#[test]
fn mint_checks_token_and_address_before_the_did() {
    let mut ledger = Ledger::default();
    let caller = principal(&[9]);
    assert!(dip721_mint(&mut ledger, caller, 1, principal(&[1]), n(10), did_props("a.icp")).is_ok());
    // A malformed DID is not looked at when the token exists or the address has claimed.
    assert_eq!(
        dip721_mint(&mut ledger, caller, 2, principal(&[2]), n(10), did_props("BAD")),
        Err(NftError::ExistedNFT)
    );
    assert_eq!(
        dip721_mint(&mut ledger, caller, 2, principal(&[1]), n(11), did_props("BAD")),
        Err(NftError::AlreadyClaim)
    );
}

#[test]
fn mint_traps_only_on_a_malformed_did_that_would_be_read() {
    let mut ledger = Ledger::default();
    let caller = principal(&[9]);
    let to = principal(&[1]);
    assert!(dip721_mint_traps(&ledger, &to, &n(10), &did_props("BAD")));
    assert!(!dip721_mint_traps(&ledger, &to, &n(10), &did_props("good.icp")));
    assert!(dip721_mint(&mut ledger, caller, 1, to, n(10), did_props("good.icp")).is_ok());
    assert!(!dip721_mint_traps(&ledger, &principal(&[2]), &n(10), &did_props("BAD")));
    assert!(!dip721_mint_traps(&ledger, &to, &n(11), &did_props("BAD")));
}

#[test]
fn mint_takes_the_last_did_property() {
    let mut ledger = Ledger::default();
    let props = vec![
        ("did".to_string(), GenericValue::TextContent("first.icp".to_string())),
        ("did".to_string(), GenericValue::TextContent("second.icp".to_string())),
        ("did".to_string(), GenericValue::BoolContent(true)),
    ];
    assert_eq!(dip721_mint(&mut ledger, principal(&[9]), 1, principal(&[1]), n(10), props), Ok(n(0)));
    assert_eq!(tokenid_to_did(&ledger, n(10)), Some("second.icp".to_string()));
    assert!(!ledger.is_did_claimed(Some("first.icp")));
}

#[test]
fn legacy_mint_numbers_tokens_after_the_supply() {
    let mut ledger = Ledger::default();
    let caller = principal(&[9]);
    assert_eq!(
        hashkey_did::legacy::mint(&mut ledger, caller, 1, principal(&[1]), did_props("a.icp")),
        Ok(n(0))
    );
    assert!(ledger.is_token_existed(&n(1)));
    assert_eq!(
        hashkey_did::legacy::mint(&mut ledger, caller, 2, principal(&[2]), did_props("b.icp")),
        Ok(n(1))
    );
    assert!(ledger.is_token_existed(&n(2)));
    assert_eq!(hashkey_did::legacy::total_supply(&ledger), 2);
    assert_eq!(hashkey_did::legacy::total_transactions(&ledger), n(2));
    assert_eq!(hashkey_did::legacy::balance_of(&ledger, principal(&[2])), Ok(1));
    assert_eq!(hashkey_did::legacy::owner_of(&ledger, n(2)), Ok(Some(principal(&[2]))));
}

#[test]
fn lookups_of_unknown_things_are_refused() {
    let ledger = Ledger::default();
    let p = principal(&[1]);
    assert_eq!(dip721_owner_of(&ledger, n(3)), Err(NftError::TokenNotFound));
    assert_eq!(dip721_token_metadata(&ledger, n(3)).err(), Some(NftError::TokenNotFound));
    assert_eq!(dip721_balance_of(&ledger, p), Err(NftError::OwnerNotFound));
    assert_eq!(dip721_owner_token_identifiers(&ledger, p).err(), Some(NftError::OwnerNotFound));
    assert_eq!(dip721_owner_token_metadata(&ledger, p).err(), Some(NftError::OwnerNotFound));
    assert_eq!(tokenid_to_did(&ledger, n(3)), None);
}

#[test]
fn owner_token_metadata_lists_each_token_of_the_owner() {
    let mut ledger = Ledger::default();
    let a = principal(&[1]);
    ledger.add_token_metadata(n(1), record(1, a));
    ledger.add_token_metadata(n(2), record(2, a));
    ledger.update_owner_cache(&n(1), None, Some(a));
    ledger.update_owner_cache(&n(2), None, Some(a));
    let records = dip721_owner_token_metadata(&ledger, a).unwrap();
    assert_eq!(records.len(), 2);
    let mut ids: Vec<Vec<u8>> = records.iter().map(|t| t.token_identifier.to_le_bytes()).collect();
    ids.sort();
    assert_eq!(ids, vec![vec![1], vec![2]]);
    assert_eq!(dip721_balance_of(&ledger, a), Ok(2));
}

#[test]
fn owner_token_metadata_refuses_a_listed_token_without_record() {
    let mut ledger = Ledger::default();
    let a = principal(&[1]);
    ledger.add_token_metadata(n(1), record(1, a));
    ledger.update_owner_cache(&n(1), None, Some(a));
    ledger.update_owner_cache(&n(5), None, Some(a));
    assert_eq!(dip721_owner_token_metadata(&ledger, a).err(), Some(NftError::TokenNotFound));
}

#[test]
fn moving_a_token_updates_both_owners() {
    let mut ledger = Ledger::default();
    let a = principal(&[1]);
    let b = principal(&[2]);
    ledger.update_owner_cache(&n(1), None, Some(a));
    ledger.update_owner_cache(&n(2), None, Some(a));
    assert_eq!(ledger.owners_count(), 1);
    ledger.update_owner_cache(&n(1), Some(a), Some(b));
    assert_eq!(ledger.owners_count(), 2);
    let a_ids = ledger.owner_token_identifiers(&a).unwrap();
    assert!(!a_ids.contains(&n(1)) && a_ids.contains(&n(2)));
    assert!(ledger.owner_token_identifiers(&b).unwrap().contains(&n(1)));
    // An owner left with no token leaves the index.
    ledger.update_owner_cache(&n(2), Some(a), None);
    assert_eq!(ledger.owner_token_identifiers(&a).err(), Some(NftError::OwnerNotFound));
    assert_eq!(ledger.owners_count(), 1);
}

#[test]
fn moving_a_token_to_its_owner_keeps_it() {
    let mut ledger = Ledger::default();
    let a = principal(&[1]);
    ledger.update_owner_cache(&n(1), None, Some(a));
    ledger.update_owner_cache(&n(1), Some(a), Some(a));
    assert!(ledger.owner_token_identifiers(&a).unwrap().contains(&n(1)));
    assert_eq!(ledger.owners_count(), 1);
}

#[test]
fn kyc_reads_back_what_was_written() {
    let mut ledger = Ledger::default();
    let p = principal(&[4]);
    let q = principal(&[5]);
    let info = KYCInfo { status: true, update_time: 10, expire_time: 20 };
    add_kyc(&mut ledger, 1, p, 100, info);
    assert_eq!(get_kyc(&ledger, 1, p, 100), Some(info));
    assert_eq!(get_kyc(&ledger, 1, p, 101), None);
    assert_eq!(get_kyc(&ledger, 1, q, 100), None);
    assert_eq!(get_kyc(&ledger, 2, p, 100), None);
    let info2 = KYCInfo { status: false, update_time: 11, expire_time: 30 };
    add_kyc(&mut ledger, 1, p, 101, info2);
    add_kyc(&mut ledger, 1, q, 100, info2);
    assert_eq!(get_kyc(&ledger, 1, p, 100), Some(info));
    assert_eq!(get_kyc(&ledger, 1, p, 101), Some(info2));
    assert_eq!(get_kyc(&ledger, 1, q, 100), Some(info2));
    add_kyc(&mut ledger, 1, p, 100, info2);
    assert_eq!(get_kyc(&ledger, 1, p, 100), Some(info2));
    assert_eq!(ledger.get_kyc(1, &p, 101), Some(&info2));
}

#[test]
fn init_metadata_merges_custodians_and_sets_the_times() {
    let mut ledger = Ledger::default();
    let owner = principal(&[1]);
    let c1 = principal(&[2]);
    let c2 = principal(&[3]);
    let router = principal(&[8]);
    let mut custodians = KeySet::new();
    custodians.insert(c1);
    custodians.insert(c2);
    custodians.insert(owner);
    let args = InitArgs {
        name: Some("HashKey DID".to_string()),
        logo: None,
        symbol: Some("HDID".to_string()),
        custodians: Some(custodians),
        cap: Some(router),
    };
    let cap = ledger.init_metadata(owner, Some(args), 42);
    assert_eq!(cap, Some(router));
    let m = dip721_metadata(&ledger);
    assert_eq!(m.created_at, 42);
    assert_eq!(m.upgraded_at, 42);
    assert_eq!(dip721_name(&ledger), Some("HashKey DID".to_string()));
    assert_eq!(dip721_logo(&ledger), None);
    assert_eq!(dip721_symbol(&ledger), Some("HDID".to_string()));
    let cs = dip721_custodians(&ledger);
    assert_eq!(cs.len(), 3);
    assert!(cs.contains(&owner) && cs.contains(&c1) && cs.contains(&c2));
}

#[test]
fn init_metadata_without_arguments_makes_the_installer_custodian() {
    let mut ledger = Ledger::default();
    let owner = principal(&[1]);
    assert_eq!(ledger.init_metadata(owner, None, 5), None);
    assert_eq!(dip721_custodians(&ledger).len(), 1);
    assert_eq!(is_canister_custodian(&ledger, &owner), Ok(()));
    assert_eq!(dip721_name(&ledger), None);
    assert_eq!(ledger.metadata().created_at, 5);
}

#[test]
fn only_custodians_pass_the_guard() {
    let mut ledger = Ledger::default();
    let owner = principal(&[1]);
    ledger.init_metadata(owner, None, 0);
    assert_eq!(is_canister_custodian(&ledger, &owner), Ok(()));
    assert_eq!(
        is_canister_custodian(&ledger, &principal(&[2])),
        Err("Caller is not an custodian of canister".to_string())
    );
    let mut next = KeySet::new();
    next.insert(principal(&[2]));
    dip721_set_custodians(&mut ledger, next);
    assert!(is_canister_custodian(&ledger, &owner).is_err());
    assert_eq!(is_canister_custodian(&ledger, &principal(&[2])), Ok(()));
}

#[test]
fn setters_change_only_their_field() {
    let mut ledger = Ledger::default();
    dip721_set_name(&mut ledger, "n".to_string());
    dip721_set_logo(&mut ledger, "l".to_string());
    dip721_set_symbol(&mut ledger, "s".to_string());
    assert_eq!(dip721_name(&ledger), Some("n".to_string()));
    assert_eq!(dip721_logo(&ledger), Some("l".to_string()));
    assert_eq!(dip721_symbol(&ledger), Some("s".to_string()));
    hashkey_did::legacy::set_name(&mut ledger, "m".to_string());
    assert_eq!(hashkey_did::legacy::name(&ledger), Some("m".to_string()));
    assert_eq!(hashkey_did::legacy::logo(&ledger), Some("l".to_string()));
    assert_eq!(dip721_total_supply(&ledger), 0);
}

#[test]
fn metadata_mut_changes_the_metadata_in_place() {
    let mut ledger = Ledger::default();
    ledger.metadata_mut().upgraded_at = 77;
    assert_eq!(ledger.metadata().upgraded_at, 77);
    assert_eq!(ledger.metadata().created_at, 0);
}

#[test]
fn stats_gather_the_counters() {
    let mut ledger = Ledger::default();
    assert!(dip721_mint(&mut ledger, principal(&[9]), 1, principal(&[1]), n(3), did_props("a.icp"))
        .is_ok());
    let s = dip721_stats(&ledger, 123_456_789_000);
    assert_eq!(
        s,
        Stats {
            total_transactions: n(1),
            total_supply: 1,
            cycles: 123_456_789_000,
            total_unique_holders: 1,
        }
    );
    assert_eq!(dip721_cycles(5), 5);
    assert_eq!(hashkey_did::legacy::stats(&ledger, 7).cycles, 7);
}

#[test]
fn supported_interfaces_are_approval_mint_and_burn() {
    assert_eq!(
        dip721_supported_interfaces(),
        vec![SupportedInterface::Approval, SupportedInterface::Mint, SupportedInterface::Burn]
    );
    assert_eq!(hashkey_did::legacy::supported_interfaces().len(), 3);
}

#[test]
fn inc_tx_counts_and_answers_the_new_count() {
    let mut ledger = Ledger::default();
    assert_eq!(ledger.inc_tx(), n(1));
    assert_eq!(ledger.inc_tx(), n(2));
    assert_eq!(ledger.tx_count(), n(2));
}

#[test]
fn key_map_inserts_replaces_and_removes() {
    let mut m: KeyMap<String, u64> = KeyMap::new();
    assert!(m.is_empty());
    m.insert("a".to_string(), 1);
    m.insert("b".to_string(), 2);
    m.insert("a".to_string(), 3);
    assert_eq!(m.len(), 2);
    assert_eq!(m.get(&"a".to_string()), Some(&3));
    assert_eq!(m.remove(&"a".to_string()), Some(3));
    assert_eq!(m.remove(&"a".to_string()), None);
    assert!(!m.contains_key(&"a".to_string()));
    assert!(m.contains_key(&"b".to_string()));
    assert_eq!(m.as_slice().len(), 1);
}

#[test]
fn naturals_count_past_every_fixed_width() {
    assert_eq!(Nat::zero(), n(0));
    assert_eq!(n(0).to_le_bytes(), Vec::<u8>::new());
    assert_eq!(n(255).increment(), n(256));
    assert_eq!(n(256).to_le_bytes(), vec![0, 1]);
    assert_eq!(n(65_535).increment().to_le_bytes(), vec![0, 0, 1]);
    assert_eq!(n(u64::MAX).increment().to_le_bytes(), vec![0, 0, 0, 0, 0, 0, 0, 0, 1]);
    assert_eq!(Nat::from_le_bytes(&[7, 0, 0]), n(7));
    assert_eq!(Nat::from_le_bytes(&[0, 0]), n(0));
    assert_eq!(n(0x0102).to_le_bytes(), vec![2, 1]);
    assert!(n(300).same_key(&Nat::from_le_bytes(&[44, 1, 0])));
    assert!(!n(300).same_key(&n(301)));
}

#[test]
fn mint_accepts_identifiers_beyond_sixty_four_bits() {
    let mut ledger = Ledger::default();
    let big = Nat::from_le_bytes(&[0, 0, 0, 0, 0, 0, 0, 0, 1]);
    let to = principal(&[1]);
    assert_eq!(
        dip721_mint(&mut ledger, principal(&[9]), 1, to, Nat::from_le_bytes(&[0, 0, 0, 0, 0, 0, 0, 0, 1]), did_props("big.icp")),
        Ok(n(0))
    );
    assert!(ledger.is_token_existed(&big));
    assert!(!ledger.is_token_existed(&n(0)));
    assert_eq!(dip721_owner_of(&ledger, Nat::from_le_bytes(&[0, 0, 0, 0, 0, 0, 0, 0, 1])), Ok(Some(to)));
    assert_eq!(addr_to_tokenid(&ledger, to), big);
}

#[test]
fn mint_raises_the_balance_of_the_recipient_alone() {
    let mut ledger = Ledger::default();
    let a = principal(&[1]);
    let b = principal(&[2]);
    let c = principal(&[3]);
    ledger.add_token_metadata(n(1), record(1, a));
    ledger.update_owner_cache(&n(1), None, Some(a));
    ledger.add_token_metadata(n(2), record(2, b));
    ledger.update_owner_cache(&n(2), None, Some(b));
    assert_eq!(dip721_balance_of(&ledger, a), Ok(1));
    assert!(dip721_mint(&mut ledger, principal(&[9]), 1, a, n(5), did_props("a.icp")).is_ok());
    assert_eq!(dip721_balance_of(&ledger, a), Ok(2));
    assert_eq!(dip721_balance_of(&ledger, b), Ok(1));
    assert_eq!(dip721_balance_of(&ledger, c), Err(NftError::OwnerNotFound));
    assert!(dip721_mint(&mut ledger, principal(&[9]), 2, c, n(6), did_props("c.icp")).is_ok());
    assert_eq!(dip721_balance_of(&ledger, c), Ok(1));
    assert_eq!(dip721_balance_of(&ledger, a), Ok(2));
    assert_eq!(dip721_balance_of(&ledger, b), Ok(1));
}

#[test]
fn transactions_count_the_successful_mints() {
    let mut ledger = Ledger::default();
    let caller = principal(&[9]);
    let mut successes: u64 = 0;
    let attempts = vec![
        (1u8, 10u64, "a.icp"),
        (2, 10, "b.icp"),
        (1, 11, "c.icp"),
        (3, 12, "a.icp"),
        (4, 13, "d.icp"),
    ];
    for (who, id, did) in attempts {
        if dip721_mint(&mut ledger, caller, 1, principal(&[who]), n(id), did_props(did)).is_ok() {
            successes += 1;
        }
        dip721_set_name(&mut ledger, did.to_string());
        add_kyc(&mut ledger, id, principal(&[who]), 1, KYCInfo::default());
        assert_eq!(dip721_total_transactions(&ledger), n(successes));
    }
    assert_eq!(successes, 2);
    assert_eq!(
        hashkey_did::legacy::mint(&mut ledger, caller, 2, principal(&[5]), did_props("e.icp")),
        Ok(n(2))
    );
    assert_eq!(dip721_total_transactions(&ledger), n(3));
}

#[test]
fn mark_upgraded_stamps_only_the_upgrade_time() {
    let mut ledger = Ledger::default();
    let owner = principal(&[1]);
    ledger.init_metadata(owner, None, 5);
    assert!(dip721_mint(&mut ledger, principal(&[9]), 1, owner, n(1), did_props("a.icp")).is_ok());
    ledger.mark_upgraded(99);
    assert_eq!(ledger.metadata().upgraded_at, 99);
    assert_eq!(ledger.metadata().created_at, 5);
    assert_eq!(dip721_custodians(&ledger).len(), 1);
    assert_eq!(dip721_total_supply(&ledger), 1);
    assert_eq!(dip721_total_transactions(&ledger), n(1));
}

#[test]
fn float_properties_keep_their_bits() {
    let x: f64 = 2.5;
    let v = GenericValue::FloatContent(x.to_bits());
    match v {
        GenericValue::FloatContent(bits) => assert_eq!(f64::from_bits(bits), 2.5),
        _ => unreachable!(),
    }
}
