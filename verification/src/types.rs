use vstd::prelude::*;

use crate::keymap::KeySet;
use crate::natural::Nat;
use crate::principal::Principal;

verus! {

/// A token's identifier: a natural number of any size.
pub type TokenIdentifier = Nat;

/// The arguments the canister is installed with.
pub struct InitArgs {
    pub name: Option<String>,
    pub logo: Option<String>,
    pub symbol: Option<String>,
    pub custodians: Option<KeySet<Principal>>,
    /// The CAP router to hand the canister's history to, in place of the default one.
    pub cap: Option<Principal>,
}

/// The collection's descriptive data and the principals that administer it.
pub struct Metadata {
    pub name: Option<String>,
    pub logo: Option<String>,
    pub symbol: Option<String>,
    pub custodians: KeySet<Principal>,
    pub created_at: u64,
    pub upgraded_at: u64,
}

impl Metadata {
    /// Metadata with no name, logo or symbol, no custodian, and both times zero.
    pub fn new() -> (r: Metadata)
        ensures
            r.name is None,
            r.logo is None,
            r.symbol is None,
            r.custodians@ == Set::<Seq<u8>>::empty(),
            r.created_at == 0,
            r.upgraded_at == 0,
    {
        Metadata {
            name: None,
            logo: None,
            symbol: None,
            custodians: KeySet::new(),
            created_at: 0,
            upgraded_at: 0,
        }
    }
}

impl Default for Metadata {
    /// Metadata with no name, logo or symbol, no custodian, and both times zero.
    fn default() -> (r: Metadata)
        ensures
            r.name is None,
            r.logo is None,
            r.symbol is None,
            r.custodians@ == Set::<Seq<u8>>::empty(),
            r.created_at == 0,
            r.upgraded_at == 0,
    {
        Metadata::new()
    }
}

/// Counters that describe the collection.
#[derive(Debug, PartialEq, Eq)]
pub struct Stats {
    pub total_transactions: Nat,
    pub total_supply: u64,
    pub cycles: u128,
    pub total_unique_holders: u64,
}

/// A property value of a token.
///
/// Values that the ledger only stores and hands back are held as plain
/// data: an unbounded natural or integer by its decimal digits (with a
/// leading `-` for a negative integer), and a float by the bits of its
/// IEEE-754 double.
#[derive(Debug, PartialEq, Eq)]
pub enum GenericValue {
    BoolContent(bool),
    TextContent(String),
    BlobContent(Vec<u8>),
    Principal(Principal),
    Nat8Content(u8),
    Nat16Content(u16),
    Nat32Content(u32),
    Nat64Content(u64),
    NatContent(String),
    Int8Content(i8),
    Int16Content(i16),
    Int32Content(i32),
    Int64Content(i64),
    IntContent(String),
    FloatContent(u64),
    NestedContent(Vec<(String, GenericValue)>),
}

/// Everything the ledger records of one token.
#[derive(Debug, PartialEq, Eq)]
pub struct TokenMetadata {
    pub did: Option<String>,
    pub token_identifier: TokenIdentifier,
    pub owner: Option<Principal>,
    pub operator: Option<Principal>,
    pub is_burned: bool,
    pub properties: Vec<(String, GenericValue)>,
    pub minted_at: u64,
    pub minted_by: Principal,
    pub transferred_at: Option<u64>,
    pub transferred_by: Option<Principal>,
    pub approved_at: Option<u64>,
    pub approved_by: Option<Principal>,
    pub burned_at: Option<u64>,
    pub burned_by: Option<Principal>,
}

/// The optional interfaces of the token standard that the ledger offers.
#[derive(Debug, Clone, Copy, PartialEq, Eq)]
pub enum SupportedInterface {
    Approval,
    Mint,
    Burn,
}

/// Why a request was refused.
#[derive(Debug, Clone, Copy, PartialEq, Eq)]
pub enum NftError {
    OwnerNotFound,
    TokenNotFound,
    ExistedNFT,
    MissingDid,
    AlreadyClaim,
    ExistedDID,
}

/// A KYC record: whether the check passed, when it was last updated and when it expires.
#[derive(Debug, Clone, Copy, PartialEq, Eq, Default)]
pub struct KYCInfo {
    pub status: bool,
    pub update_time: u64,
    pub expire_time: u64,
}

} // verus!
