use vstd::prelude::*;

use crate::api::{
    dip721_balance_of, dip721_custodians, dip721_cycles, dip721_logo, dip721_metadata,
    dip721_mint, dip721_name, dip721_owner_of, dip721_owner_token_identifiers,
    dip721_owner_token_metadata, dip721_set_custodians, dip721_set_logo, dip721_set_name,
    dip721_set_symbol, dip721_stats, dip721_supported_interfaces, dip721_symbol,
    dip721_token_metadata, dip721_total_supply, dip721_total_transactions,
    dip721_total_unique_holders, balance, balance_value, mint_result, mint_traps, minted,
    result_value,
};
use crate::keymap::KeySet;
use crate::ledger::{owner_records_answer, Ledger};
use crate::natural::Nat;
use crate::principal::Principal;
use crate::types::{
    GenericValue, Metadata, NftError, Stats, SupportedInterface, TokenIdentifier, TokenMetadata,
};

verus! {

/// The collection's name.
pub fn name(ledger: &Ledger) -> (r: Option<String>)
    ensures
        r == ledger.metadata.name,
{
    dip721_name(ledger)
}

/// The collection's logo.
pub fn logo(ledger: &Ledger) -> (r: Option<String>)
    ensures
        r == ledger.metadata.logo,
{
    dip721_logo(ledger)
}

/// The collection's symbol.
pub fn symbol(ledger: &Ledger) -> (r: Option<String>)
    ensures
        r == ledger.metadata.symbol,
{
    dip721_symbol(ledger)
}

/// The collection's custodians.
pub fn custodians(ledger: &Ledger) -> (r: &KeySet<Principal>)
    ensures
        *r == ledger.metadata.custodians,
{
    dip721_custodians(ledger)
}

/// The collection's metadata.
pub fn metadata(ledger: &Ledger) -> (r: &Metadata)
    ensures
        *r == ledger.metadata,
{
    dip721_metadata(ledger)
}

/// Renames the collection.
pub fn set_name(ledger: &mut Ledger, name: String)
    ensures
        *final(ledger) == (Ledger {
            metadata: Metadata { name: Some(name), ..old(ledger).metadata },
            ..*old(ledger)
        }),
{
    dip721_set_name(ledger, name)
}

/// Sets the collection's logo.
pub fn set_logo(ledger: &mut Ledger, logo: String)
    ensures
        *final(ledger) == (Ledger {
            metadata: Metadata { logo: Some(logo), ..old(ledger).metadata },
            ..*old(ledger)
        }),
{
    dip721_set_logo(ledger, logo)
}

/// Sets the collection's symbol.
pub fn set_symbol(ledger: &mut Ledger, symbol: String)
    ensures
        *final(ledger) == (Ledger {
            metadata: Metadata { symbol: Some(symbol), ..old(ledger).metadata },
            ..*old(ledger)
        }),
{
    dip721_set_symbol(ledger, symbol)
}

/// Replaces the collection's custodians.
pub fn set_custodians(ledger: &mut Ledger, custodians: KeySet<Principal>)
    ensures
        *final(ledger) == (Ledger {
            metadata: Metadata { custodians, ..old(ledger).metadata },
            ..*old(ledger)
        }),
{
    dip721_set_custodians(ledger, custodians)
}

/// The number of tokens ever minted.
pub fn total_supply(ledger: &Ledger) -> (r: u64)
    ensures
        r == ledger.tokens@.len(),
{
    dip721_total_supply(ledger)
}

/// The number of transactions so far.
pub fn total_transactions(ledger: &Ledger) -> (r: Nat)
    ensures
        r@ == ledger.tx_count@,
{
    dip721_total_transactions(ledger)
}

/// The cycle count to report, given the canister's cycle balance.
pub fn cycles(balance: u128) -> (r: u128)
    ensures
        r == balance,
{
    dip721_cycles(balance)
}

/// The number of principals that own a token.
pub fn total_unique_holders(ledger: &Ledger) -> (r: u64)
    ensures
        r == ledger.owners@.len(),
{
    dip721_total_unique_holders(ledger)
}

/// The collection's counters, given the canister's cycle balance.
pub fn stats(ledger: &Ledger, balance: u128) -> (r: Stats)
    ensures
        r.total_transactions@ == ledger.tx_count@,
        r.total_supply == ledger.tokens@.len(),
        r.cycles == balance,
        r.total_unique_holders == ledger.owners@.len(),
{
    dip721_stats(ledger, balance)
}

/// The optional interfaces the ledger offers.
pub fn supported_interfaces() -> (r: Vec<SupportedInterface>)
    ensures
        r@ == seq![SupportedInterface::Approval, SupportedInterface::Mint, SupportedInterface::Burn],
{
    dip721_supported_interfaces()
}

/// The number of tokens `owner` owns; refused if it owns none.
pub fn balance_of(ledger: &Ledger, owner: Principal) -> (r: Result<u64, NftError>)
    ensures
        balance_value(r) == balance(*ledger, owner@),
{
    dip721_balance_of(ledger, owner)
}

/// The owner recorded for a token.
pub fn owner_of(ledger: &Ledger, token_identifier: TokenIdentifier) -> (r: Result<
    Option<Principal>,
    NftError,
>)
    ensures
        match r {
            Ok(o) => ledger.tokens@.contains_key(token_identifier@) && o
                == ledger.tokens@[token_identifier@].owner,
            Err(e) => !ledger.tokens@.contains_key(token_identifier@) && e
                == NftError::TokenNotFound,
        },
{
    dip721_owner_of(ledger, token_identifier)
}

/// The records of the tokens that `owner` owns.
pub fn owner_token_metadata(ledger: &Ledger, owner: Principal) -> (r: Result<
    Vec<&TokenMetadata>,
    NftError,
>)
    ensures
        owner_records_answer(*ledger, owner@, r),
{
    dip721_owner_token_metadata(ledger, owner)
}

/// The tokens that `owner` owns.
pub fn owner_token_identifiers(ledger: &Ledger, owner: Principal) -> (r: Result<
    &KeySet<TokenIdentifier>,
    NftError,
>)
    ensures
        match r {
            Ok(s) => ledger.owners@.contains_key(owner@) && *s == ledger.owners@[owner@],
            Err(e) => !ledger.owners@.contains_key(owner@) && e == NftError::OwnerNotFound,
        },
{
    dip721_owner_token_identifiers(ledger, owner)
}

/// The record of a token.
pub fn token_metadata(ledger: &Ledger, token_identifier: TokenIdentifier) -> (r: Result<
    &TokenMetadata,
    NftError,
>)
    ensures
        match r {
            Ok(t) => ledger.tokens@.contains_key(token_identifier@) && *t
                == ledger.tokens@[token_identifier@],
            Err(e) => !ledger.tokens@.contains_key(token_identifier@) && e
                == NftError::TokenNotFound,
        },
{
    dip721_token_metadata(ledger, token_identifier)
}

/// The identifier that a token minted without one receives: one more than
/// the number of tokens.
pub open spec fn next_token_identifier(ledger: Ledger) -> nat {
    ledger.tokens@.len() + 1
}

/// Mints for `to`, on behalf of `caller` at time `now`, a token whose
/// identifier is one more than the number of tokens.
pub fn mint(
    ledger: &mut Ledger,
    caller: Principal,
    now: u64,
    to: Principal,
    properties: Vec<(String, GenericValue)>,
) -> (r: Result<Nat, NftError>)
    requires
        !mint_traps(*old(ledger), to@, next_token_identifier(*old(ledger)), properties@),
    ensures
        result_value(r) == mint_result(
            *old(ledger),
            to@,
            next_token_identifier(*old(ledger)),
            properties@,
        ),
        r is Err ==> *final(ledger) == *old(ledger),
        r is Ok ==> {
            let id = next_token_identifier(*old(ledger));
            &&& final(ledger).tokens@.contains_key(id)
            &&& final(ledger).tokens@[id].token_identifier@ == id
            &&& minted(
                *old(ledger),
                *final(ledger),
                caller,
                now,
                to,
                final(ledger).tokens@[id].token_identifier,
                properties,
            )
        },
        final(ledger).tx_count@ == old(ledger).tx_count@ + if r is Ok {
            1nat
        } else {
            0nat
        },
        old(ledger).consistent() ==> final(ledger).consistent(),
{
    let supply = dip721_total_supply(ledger);
    let token_identifier = Nat::from_u64(supply).increment();
    dip721_mint(ledger, caller, now, to, token_identifier, properties)
}

} // verus!
