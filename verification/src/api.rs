use vstd::prelude::*;

use crate::did::{chosen_did, did_of_properties, did_properties_well_formed};
use crate::keymap::KeySet;
use crate::ledger::{
    id_values, kyc_inserted, kyc_lookup, kyc_view, moved_owner_sets, owner_records_answer,
    owner_sets, Ledger,
};
use crate::natural::Nat;
use crate::principal::{LedgerKey, Principal};
use crate::types::{
    GenericValue, KYCInfo, Metadata, NftError, Stats, SupportedInterface, TokenIdentifier,
    TokenMetadata,
};

verus! {

/// Minting stops the canister: the token is new, the recipient has claimed
/// nothing, and a DID property holds a malformed DID.
pub open spec fn mint_traps(
    l: Ledger,
    to: Seq<u8>,
    token_identifier: nat,
    properties: Seq<(String, GenericValue)>,
) -> bool {
    &&& !l.tokens@.contains_key(token_identifier)
    &&& !l.addr_to_tokenid@.contains_key(to)
    &&& !did_properties_well_formed(properties)
}

/// What minting answers: an identifier already in use, a recipient that
/// has already claimed a token, a DID already carried by a token, and a
/// missing DID are refused, in that order; otherwise the answer is the
/// index of the minting transaction.
pub open spec fn mint_result(
    l: Ledger,
    to: Seq<u8>,
    token_identifier: nat,
    properties: Seq<(String, GenericValue)>,
) -> Result<nat, NftError> {
    if l.tokens@.contains_key(token_identifier) {
        Err(NftError::ExistedNFT)
    } else if l.addr_to_tokenid@.contains_key(to) {
        Err(NftError::AlreadyClaim)
    } else {
        match did_of_properties(properties) {
            Some(did) => if l.did_to_tokenid@.contains_key(did@) {
                Err(NftError::ExistedDID)
            } else {
                Ok(l.tx_count@)
            },
            None => Err(NftError::MissingDid),
        }
    }
}

/// A result whose number is taken by its value.
pub open spec fn result_value(r: Result<Nat, NftError>) -> Result<nat, NftError> {
    match r {
        Ok(n) => Ok(n@),
        Err(e) => Err(e),
    }
}

/// The record of a freshly minted token.
pub open spec fn minted_record(
    caller: Principal,
    now: u64,
    to: Principal,
    token_identifier: TokenIdentifier,
    properties: Vec<(String, GenericValue)>,
    did: String,
) -> TokenMetadata {
    TokenMetadata {
        did: Some(did),
        token_identifier,
        owner: Some(to),
        operator: None,
        is_burned: false,
        properties,
        minted_at: now,
        minted_by: caller,
        transferred_at: None,
        transferred_by: None,
        approved_at: None,
        approved_by: None,
        burned_at: None,
        burned_by: None,
    }
}

/// `new` is `old` after a successful mint: the token is recorded, owned by
/// `to`, filed under its DID both ways, claimed by `to`, and one more
/// transaction is counted; nothing else changes.
pub open spec fn minted(
    old: Ledger,
    new: Ledger,
    caller: Principal,
    now: u64,
    to: Principal,
    token_identifier: TokenIdentifier,
    properties: Vec<(String, GenericValue)>,
) -> bool {
    let did = did_of_properties(properties@)->0;
    let id = token_identifier@;
    &&& new.metadata == old.metadata
    &&& new.tokens@ == old.tokens@.insert(
        id,
        minted_record(caller, now, to, token_identifier, properties, did),
    )
    &&& owner_sets(new.owners@) == moved_owner_sets(owner_sets(old.owners@), id, None, Some(to@))
    &&& new.operators == old.operators
    &&& new.tx_count@ == old.tx_count@ + 1
    &&& new.did_claimed == old.did_claimed
    &&& new.tokenid_to_did@ == old.tokenid_to_did@.insert(id, did)
    &&& id_values(new.did_to_tokenid@) == id_values(old.did_to_tokenid@).insert(did@, id)
    &&& id_values(new.addr_to_tokenid@) == id_values(old.addr_to_tokenid@).insert(to@, id)
    &&& new.kyc_map == old.kyc_map
}

/// Whether minting with these arguments would stop the canister on a
/// malformed DID.
pub fn dip721_mint_traps(
    ledger: &Ledger,
    to: &Principal,
    token_identifier: &TokenIdentifier,
    properties: &Vec<(String, GenericValue)>,
) -> (r: bool)
    ensures
        r == mint_traps(*ledger, to@, token_identifier@, properties@),
{
    !ledger.is_token_existed(token_identifier) && !ledger.addr_to_tokenid.contains_key(to)
        && !crate::did::did_properties_checked(properties)
}

/// Mints token `token_identifier` for `to`, on behalf of `caller` at time
/// `now`, with the given properties, among which the DID is named.
pub fn dip721_mint(
    ledger: &mut Ledger,
    caller: Principal,
    now: u64,
    to: Principal,
    token_identifier: TokenIdentifier,
    properties: Vec<(String, GenericValue)>,
) -> (r: Result<Nat, NftError>)
    requires
        !mint_traps(*old(ledger), to@, token_identifier@, properties@),
    ensures
        result_value(r) == mint_result(*old(ledger), to@, token_identifier@, properties@),
        r is Err ==> *final(ledger) == *old(ledger),
        r is Ok ==> minted(*old(ledger), *final(ledger), caller, now, to, token_identifier, properties),
        final(ledger).tx_count@ == old(ledger).tx_count@ + if r is Ok {
            1nat
        } else {
            0nat
        },
        old(ledger).consistent() ==> final(ledger).consistent(),
{
    if ledger.is_token_existed(&token_identifier) {
        return Err(NftError::ExistedNFT);
    }
    if ledger.addr_to_tokenid.contains_key(&to) {
        return Err(NftError::AlreadyClaim);
    }
    let did = chosen_did(&properties);
    let claimed = match &did {
        Some(d) => ledger.is_did_claimed(Some(d.as_str())),
        None => ledger.is_did_claimed(None),
    };
    if claimed {
        return Err(NftError::ExistedDID);
    }
    let did_value = match did {
        Some(d) => d,
        None => return Err(NftError::MissingDid),
    };
    let ghost old_ledger = *ledger;
    let ghost props = properties;
    let ghost id = token_identifier;
    let index = ledger.tx_count();
    let key = token_identifier.key_copy();
    let owned = token_identifier.key_copy();
    let did_key = token_identifier.key_copy();
    let did_target = token_identifier.key_copy();
    let claimed_token = token_identifier.key_copy();
    ledger.add_token_metadata(
        key,
        TokenMetadata {
            did: Some(did_value.clone()),
            token_identifier,
            owner: Some(to),
            operator: None,
            properties,
            is_burned: false,
            minted_at: now,
            minted_by: caller,
            transferred_at: None,
            transferred_by: None,
            approved_at: None,
            approved_by: None,
            burned_at: None,
            burned_by: None,
        },
    );
    ledger.update_owner_cache(&owned, None, Some(to));
    ledger.tokenid_to_did.insert(did_key, did_value.clone());
    let ghost before_did = ledger.did_to_tokenid@;
    ledger.did_to_tokenid.insert(did_value.clone(), did_target);
    let ghost before_addr = ledger.addr_to_tokenid@;
    ledger.addr_to_tokenid.insert(to, claimed_token);
    ledger.inc_tx();
    proof {
        assert(id_values(ledger.did_to_tokenid@) =~= id_values(old_ledger.did_to_tokenid@).insert(
            did_value@,
            id@,
        ));
        assert(id_values(ledger.addr_to_tokenid@) =~= id_values(old_ledger.addr_to_tokenid@).insert(
            to@,
            id@,
        ));
        if old_ledger.consistent() {
            crate::laws::law_mint_keeps_ledger_consistent(
                old_ledger,
                *ledger,
                caller,
                now,
                to,
                id,
                props,
            );
        }
    }
    Ok(index)
}

/// The message with which a caller that is not a custodian is turned away.
pub open spec fn not_custodian_message() -> Seq<char> {
    "Caller is not an custodian of canister"@
}

/// Admits `caller` to the administrative updates exactly when it is a custodian.
pub fn is_canister_custodian(ledger: &Ledger, caller: &Principal) -> (r: Result<(), String>)
    ensures
        match r {
            Ok(()) => ledger.metadata.custodians@.contains(caller@),
            Err(m) => !ledger.metadata.custodians@.contains(caller@) && m@
                == not_custodian_message(),
        },
{
    if ledger.metadata().custodians.contains(caller) {
        Ok(())
    } else {
        Err("Caller is not an custodian of canister".to_owned())
    }
}

/// A copy of an optional text.
fn copy_text(t: &Option<String>) -> (r: Option<String>)
    ensures
        r == *t,
{
    match t {
        Some(s) => Some(s.clone()),
        None => None,
    }
}

/// The collection's name.
pub fn dip721_name(ledger: &Ledger) -> (r: Option<String>)
    ensures
        r == ledger.metadata.name,
{
    copy_text(&ledger.metadata().name)
}

/// The collection's logo.
pub fn dip721_logo(ledger: &Ledger) -> (r: Option<String>)
    ensures
        r == ledger.metadata.logo,
{
    copy_text(&ledger.metadata().logo)
}

/// The collection's symbol.
pub fn dip721_symbol(ledger: &Ledger) -> (r: Option<String>)
    ensures
        r == ledger.metadata.symbol,
{
    copy_text(&ledger.metadata().symbol)
}

/// The collection's custodians.
pub fn dip721_custodians(ledger: &Ledger) -> (r: &KeySet<Principal>)
    ensures
        *r == ledger.metadata.custodians,
{
    &ledger.metadata().custodians
}

/// The collection's metadata.
pub fn dip721_metadata(ledger: &Ledger) -> (r: &Metadata)
    ensures
        *r == ledger.metadata,
{
    ledger.metadata()
}

/// The token that carries `did`; the DID must be known.
pub fn did_to_tokenid(ledger: &Ledger, did: String) -> (r: TokenIdentifier)
    requires
        ledger.did_to_tokenid@.contains_key(did@),
    ensures
        r@ == ledger.did_to_tokenid@[did@]@,
{
    ledger.did_to_tokenid(&did)
}

/// The DID that the token carries, if any.
pub fn tokenid_to_did(ledger: &Ledger, tokenid: TokenIdentifier) -> (r: Option<String>)
    ensures
        r == ledger.tokenid_to_did@.get(tokenid@),
{
    ledger.tokenid_to_did(&tokenid)
}

/// The token that `addr` has claimed; `addr` must have claimed one.
pub fn addr_to_tokenid(ledger: &Ledger, addr: Principal) -> (r: TokenIdentifier)
    requires
        ledger.addr_to_tokenid@.contains_key(addr@),
    ensures
        r@ == ledger.addr_to_tokenid@[addr@]@,
{
    ledger.addr_to_tokenid(&addr)
}

/// Renames the collection.
pub fn dip721_set_name(ledger: &mut Ledger, name: String)
    ensures
        *final(ledger) == (Ledger {
            metadata: Metadata { name: Some(name), ..old(ledger).metadata },
            ..*old(ledger)
        }),
{
    ledger.metadata_mut().name = Some(name);
}

/// Sets the collection's logo.
pub fn dip721_set_logo(ledger: &mut Ledger, logo: String)
    ensures
        *final(ledger) == (Ledger {
            metadata: Metadata { logo: Some(logo), ..old(ledger).metadata },
            ..*old(ledger)
        }),
{
    ledger.metadata_mut().logo = Some(logo);
}

/// Sets the collection's symbol.
pub fn dip721_set_symbol(ledger: &mut Ledger, symbol: String)
    ensures
        *final(ledger) == (Ledger {
            metadata: Metadata { symbol: Some(symbol), ..old(ledger).metadata },
            ..*old(ledger)
        }),
{
    ledger.metadata_mut().symbol = Some(symbol);
}

/// Replaces the collection's custodians.
pub fn dip721_set_custodians(ledger: &mut Ledger, custodians: KeySet<Principal>)
    ensures
        *final(ledger) == (Ledger {
            metadata: Metadata { custodians, ..old(ledger).metadata },
            ..*old(ledger)
        }),
{
    ledger.metadata_mut().custodians = custodians;
}

/// The number of tokens ever minted; a burned token still counts.
pub fn dip721_total_supply(ledger: &Ledger) -> (r: u64)
    ensures
        r == ledger.tokens@.len(),
{
    ledger.tokens_count() as u64
}

/// The number of transactions so far.
pub fn dip721_total_transactions(ledger: &Ledger) -> (r: Nat)
    ensures
        r@ == ledger.tx_count@,
{
    ledger.tx_count()
}

/// The cycle count to report, given the canister's cycle balance.
pub fn dip721_cycles(balance: u128) -> (r: u128)
    ensures
        r == balance,
{
    balance
}

/// The number of principals that own a token.
pub fn dip721_total_unique_holders(ledger: &Ledger) -> (r: u64)
    ensures
        r == ledger.owners@.len(),
{
    ledger.owners_count() as u64
}

/// The collection's counters, given the canister's cycle balance.
pub fn dip721_stats(ledger: &Ledger, balance: u128) -> (r: Stats)
    ensures
        r.total_transactions@ == ledger.tx_count@,
        r.total_supply == ledger.tokens@.len(),
        r.cycles == balance,
        r.total_unique_holders == ledger.owners@.len(),
{
    Stats {
        total_transactions: dip721_total_transactions(ledger),
        total_supply: dip721_total_supply(ledger),
        cycles: dip721_cycles(balance),
        total_unique_holders: dip721_total_unique_holders(ledger),
    }
}

/// The optional interfaces the ledger offers: approval, minting and burning.
pub fn dip721_supported_interfaces() -> (r: Vec<SupportedInterface>)
    ensures
        r@ == seq![SupportedInterface::Approval, SupportedInterface::Mint, SupportedInterface::Burn],
{
    let r = vec![SupportedInterface::Approval, SupportedInterface::Mint, SupportedInterface::Burn];
    assert(r@ =~= seq![
        SupportedInterface::Approval,
        SupportedInterface::Mint,
        SupportedInterface::Burn,
    ]);
    r
}

/// The balance of `owner`: the number of tokens it owns, refused where it
/// owns none.
pub open spec fn balance(l: Ledger, owner: Seq<u8>) -> Result<nat, NftError> {
    if l.owners@.contains_key(owner) {
        Ok(l.owners@[owner]@.len())
    } else {
        Err(NftError::OwnerNotFound)
    }
}

/// A balance whose number is taken by its value.
pub open spec fn balance_value(r: Result<u64, NftError>) -> Result<nat, NftError> {
    match r {
        Ok(n) => Ok(n as nat),
        Err(e) => Err(e),
    }
}

/// The number of tokens `owner` owns; refused if it owns none.
pub fn dip721_balance_of(ledger: &Ledger, owner: Principal) -> (r: Result<u64, NftError>)
    ensures
        balance_value(r) == balance(*ledger, owner@),
{
    match ledger.owner_token_identifiers(&owner) {
        Ok(token_identifiers) => Ok(token_identifiers.len() as u64),
        Err(e) => Err(e),
    }
}

/// The owner recorded for a token.
pub fn dip721_owner_of(ledger: &Ledger, token_identifier: TokenIdentifier) -> (r: Result<
    Option<Principal>,
    NftError,
>)
    ensures
        match r {
            Ok(o) => ledger.tokens@.contains_key(token_identifier@) && o
                == ledger.tokens@[token_identifier@].owner,
            Err(e) => !ledger.tokens@.contains_key(token_identifier@) && e
                == NftError::TokenNotFound,
        },
{
    ledger.owner_of(&token_identifier)
}

/// The records of the tokens that `owner` owns.
pub fn dip721_owner_token_metadata(ledger: &Ledger, owner: Principal) -> (r: Result<
    Vec<&TokenMetadata>,
    NftError,
>)
    ensures
        owner_records_answer(*ledger, owner@, r),
{
    ledger.owner_token_metadata(&owner)
}

/// The tokens that `owner` owns.
pub fn dip721_owner_token_identifiers(ledger: &Ledger, owner: Principal) -> (r: Result<
    &KeySet<TokenIdentifier>,
    NftError,
>)
    ensures
        match r {
            Ok(s) => ledger.owners@.contains_key(owner@) && *s == ledger.owners@[owner@],
            Err(e) => !ledger.owners@.contains_key(owner@) && e == NftError::OwnerNotFound,
        },
{
    ledger.owner_token_identifiers(&owner)
}

/// The record of a token.
pub fn dip721_token_metadata(ledger: &Ledger, token_identifier: TokenIdentifier) -> (r: Result<
    &TokenMetadata,
    NftError,
>)
    ensures
        match r {
            Ok(t) => ledger.tokens@.contains_key(token_identifier@) && *t
                == ledger.tokens@[token_identifier@],
            Err(e) => !ledger.tokens@.contains_key(token_identifier@) && e
                == NftError::TokenNotFound,
        },
{
    ledger.token_metadata(&token_identifier)
}

/// Records a KYC result under token, provider and record id.
pub fn add_kyc(
    ledger: &mut Ledger,
    token_id: u64,
    kyc_provider: Principal,
    kyc_id: u64,
    kyc_info: KYCInfo,
)
    ensures
        *final(ledger) == (Ledger { kyc_map: final(ledger).kyc_map, ..*old(ledger) }),
        kyc_view(final(ledger).kyc_map@) == kyc_inserted(
            kyc_view(old(ledger).kyc_map@),
            token_id,
            kyc_provider@,
            kyc_id,
            kyc_info,
        ),
{
    ledger.add_kyc(token_id, &kyc_provider, kyc_id, kyc_info);
}

/// The KYC record under token, provider and record id, if any.
pub fn get_kyc(ledger: &Ledger, token_id: u64, kyc_provider: Principal, kyc_id: u64) -> (r: Option<
    KYCInfo,
>)
    ensures
        r == kyc_lookup(kyc_view(ledger.kyc_map@), token_id, kyc_provider@, kyc_id),
{
    match ledger.get_kyc(token_id, &kyc_provider, kyc_id) {
        Some(info) => Some(*info),
        None => None,
    }
}

} // verus!
