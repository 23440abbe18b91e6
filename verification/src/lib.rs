//! A DIP721-style ledger of decentralised identifiers (DIDs): every
//! principal may claim one NFT, each NFT carries one DID, and KYC records
//! are kept per token, provider and record id.
//!
//! The modules hold, in order of dependence:
//! - `principal`: principal identifiers and the key trait the maps use;
//! - `keymap`: finite maps and sets keyed by principals, strings or numbers;
//! - `natural`: natural numbers of any size, which identify tokens and
//!   count transactions;
//! - `types`: the records the ledger stores and answers with;
//! - `did`: the DID format and the choice of the DID among token properties;
//! - `ledger`: the ledger state and its operations;
//! - `api`: the canister's query and update entry points over a ledger;
//! - `legacy`: the older entry points, kept under their historical names;
//! - `laws`: properties that relate several operations.

pub mod principal;
pub mod keymap;
pub mod natural;
pub mod types;
pub mod did;
pub mod ledger;
pub mod api;
pub mod laws;
pub mod legacy;
