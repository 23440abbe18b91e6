use vstd::prelude::*;

use std::collections::HashMap;

use crate::did::valid_did;
use crate::keymap::{KeyMap, KeySet};
use crate::natural::Nat;
use crate::principal::{LedgerKey, Principal};
use crate::types::{
    InitArgs, KYCInfo, Metadata, NftError, TokenIdentifier, TokenMetadata,
};

verus! {

broadcast use vstd::std_specs::hash::group_hash_axioms;

/// The state of the ledger.
pub struct Ledger {
    pub metadata: Metadata,
    /// Every token ever minted, by identifier.
    pub tokens: KeyMap<TokenIdentifier, TokenMetadata>,
    /// For each principal that owns a token, the tokens it owns.
    pub owners: KeyMap<Principal, KeySet<TokenIdentifier>>,
    pub operators: KeyMap<Principal, KeySet<TokenIdentifier>>,
    /// The number of transactions so far.
    pub tx_count: Nat,
    pub did_claimed: KeyMap<Principal, bool>,
    pub tokenid_to_did: KeyMap<TokenIdentifier, String>,
    pub did_to_tokenid: KeyMap<String, TokenIdentifier>,
    /// The token that each principal has claimed.
    pub addr_to_tokenid: KeyMap<Principal, TokenIdentifier>,
    /// KYC records, by token, then by provider, then by record id.
    pub kyc_map: HashMap<u64, KeyMap<Principal, HashMap<u64, KYCInfo>>>,
}

/// The owner index as sets: for each principal, the identifiers of its tokens.
pub open spec fn owner_sets(m: Map<Seq<u8>, KeySet<TokenIdentifier>>) -> Map<
    Seq<u8>,
    Set<nat>,
> {
    m.map_values(|s: KeySet<TokenIdentifier>| s@)
}

/// An index whose values are numbers, with each number taken by its value.
pub open spec fn id_values<K>(m: Map<K, Nat>) -> Map<K, nat> {
    m.map_values(|n: Nat| n@)
}

/// The owner index after `token` leaves `old_owner` and comes to `new_owner`:
/// a principal left with no token drops out of the index, and one that had
/// none enters it.
pub open spec fn moved_owner_sets(
    sets: Map<Seq<u8>, Set<nat>>,
    token: nat,
    old_owner: Option<Seq<u8>>,
    new_owner: Option<Seq<u8>>,
) -> Map<Seq<u8>, Set<nat>> {
    let after_leaving = match old_owner {
        Some(o) => {
            let rest = sets[o].remove(token);
            if rest.is_empty() {
                sets.remove(o)
            } else {
                sets.insert(o, rest)
            }
        },
        None => sets,
    };
    match new_owner {
        Some(n) => after_leaving.insert(
            n,
            if after_leaving.contains_key(n) {
                after_leaving[n].insert(token)
            } else {
                Set::empty().insert(token)
            },
        ),
        None => after_leaving,
    }
}

/// `r` is a right answer to a request for the records of the tokens that
/// `owner` owns: they are refused exactly when `owner` owns nothing or one of
/// its tokens has no record; otherwise they are the records of its tokens,
/// each once, in some order.
pub open spec fn owner_records_answer(
    l: Ledger,
    owner: Seq<u8>,
    r: Result<Vec<&TokenMetadata>, NftError>,
) -> bool {
    match r {
        Ok(v) => {
            &&& l.owners@.contains_key(owner)
            &&& forall|id: nat| #[trigger]
                l.owners@[owner]@.contains(id) ==> l.tokens@.contains_key(id)
            &&& exists|ids: Seq<nat>|
                {
                    &&& ids.no_duplicates()
                    &&& ids.to_set() == l.owners@[owner]@
                    &&& v@.len() == ids.len()
                    &&& forall|i: int| 0 <= i < ids.len() ==> *#[trigger] v@[i] == l.tokens@[ids[i]]
                }
        },
        Err(e) => {
            ||| !l.owners@.contains_key(owner) && e == NftError::OwnerNotFound
            ||| l.owners@.contains_key(owner) && e == NftError::TokenNotFound && exists|id: nat| #[trigger] l.owners@[owner]@.contains(id) && !l.tokens@.contains_key(id)
        },
    }
}

/// The principal's bytes, where there is a principal.
pub open spec fn principal_view(p: Option<Principal>) -> Option<Seq<u8>> {
    match p {
        Some(q) => Some(q@),
        None => None,
    }
}

/// The KYC records as maps: token, then provider, then record id.
pub open spec fn kyc_view(m: Map<u64, KeyMap<Principal, HashMap<u64, KYCInfo>>>) -> Map<
    u64,
    Map<Seq<u8>, Map<u64, KYCInfo>>,
> {
    m.map_values(
        |providers: KeyMap<Principal, HashMap<u64, KYCInfo>>|
            providers@.map_values(|records: HashMap<u64, KYCInfo>| records@),
    )
}

/// The KYC records after `info` is put under token `token_id`, provider
/// `provider` and record `kyc_id`, creating the levels that are missing.
pub open spec fn kyc_inserted(
    v: Map<u64, Map<Seq<u8>, Map<u64, KYCInfo>>>,
    token_id: u64,
    provider: Seq<u8>,
    kyc_id: u64,
    info: KYCInfo,
) -> Map<u64, Map<Seq<u8>, Map<u64, KYCInfo>>> {
    let providers = if v.contains_key(token_id) {
        v[token_id]
    } else {
        Map::empty()
    };
    let records = if providers.contains_key(provider) {
        providers[provider]
    } else {
        Map::empty()
    };
    v.insert(token_id, providers.insert(provider, records.insert(kyc_id, info)))
}

/// The KYC record under token `token_id`, provider `provider` and record `kyc_id`, if any.
pub open spec fn kyc_lookup(
    v: Map<u64, Map<Seq<u8>, Map<u64, KYCInfo>>>,
    token_id: u64,
    provider: Seq<u8>,
    kyc_id: u64,
) -> Option<KYCInfo> {
    if v.contains_key(token_id) && v[token_id].contains_key(provider)
        && v[token_id][provider].contains_key(kyc_id) {
        Some(v[token_id][provider][kyc_id])
    } else {
        None
    }
}

impl Ledger {
    /// A ledger with empty metadata, no token, no owner, no DID, no KYC
    /// record, and no transaction.
    pub open spec fn is_empty_ledger(&self) -> bool {
        &&& self.metadata.name is None
        &&& self.metadata.logo is None
        &&& self.metadata.symbol is None
        &&& self.metadata.custodians@ == Set::<Seq<u8>>::empty()
        &&& self.metadata.created_at == 0
        &&& self.metadata.upgraded_at == 0
        &&& self.tokens@ == Map::<nat, TokenMetadata>::empty()
        &&& self.owners@ == Map::<Seq<u8>, KeySet<TokenIdentifier>>::empty()
        &&& self.operators@ == Map::<Seq<u8>, KeySet<TokenIdentifier>>::empty()
        &&& self.tx_count@ == 0
        &&& self.did_claimed@ == Map::<Seq<u8>, bool>::empty()
        &&& self.tokenid_to_did@ == Map::<nat, String>::empty()
        &&& self.did_to_tokenid@ == Map::<Seq<char>, TokenIdentifier>::empty()
        &&& self.addr_to_tokenid@ == Map::<Seq<u8>, TokenIdentifier>::empty()
        &&& self.kyc_map@ == Map::<u64, KeyMap<Principal, HashMap<u64, KYCInfo>>>::empty()
    }


    /// The indexes agree with the token records: every token has an owner
    /// whose entry in the owner index lists it; the index lists only the
    /// tokens of each principal and no principal without one; every token
    /// carries the DID under which both DID indexes file it, and every such
    /// DID is well formed; and a principal that has claimed a token owns it.
    pub open spec fn consistent(&self) -> bool {
        &&& forall|id: nat| #[trigger]
            self.tokens@.contains_key(id) ==> {
                &&& self.tokens@[id].owner is Some
                &&& self.owners@.contains_key(self.tokens@[id].owner->0@)
                &&& self.owners@[self.tokens@[id].owner->0@]@.contains(id)
                &&& self.tokenid_to_did@.contains_key(id)
                &&& self.tokens@[id].did == Some(self.tokenid_to_did@[id])
            }
        &&& forall|p: Seq<u8>| #[trigger]
            self.owners@.contains_key(p) ==> {
                &&& !self.owners@[p]@.is_empty()
                &&& forall|id: nat| #[trigger]
                    self.owners@[p]@.contains(id) ==> self.tokens@.contains_key(id)
                        && principal_view(self.tokens@[id].owner) == Some(p)
            }
        &&& forall|id: nat| #[trigger]
            self.tokenid_to_did@.contains_key(id) ==> {
                &&& self.tokens@.contains_key(id)
                &&& self.did_to_tokenid@.contains_key(self.tokenid_to_did@[id]@)
                &&& self.did_to_tokenid@[self.tokenid_to_did@[id]@]@ == id
            }
        &&& forall|d: Seq<char>| #[trigger]
            self.did_to_tokenid@.contains_key(d) ==> {
                &&& valid_did(d)
                &&& self.tokenid_to_did@.contains_key(self.did_to_tokenid@[d]@)
                &&& self.tokenid_to_did@[self.did_to_tokenid@[d]@]@ == d
            }
        &&& forall|p: Seq<u8>| #[trigger]
            self.addr_to_tokenid@.contains_key(p) ==> {
                &&& self.tokens@.contains_key(self.addr_to_tokenid@[p]@)
                &&& principal_view(self.tokens@[self.addr_to_tokenid@[p]@].owner) == Some(p)
            }
    }

    /// The empty ledger.
    pub fn new() -> (r: Ledger)
        ensures
            r.is_empty_ledger(),
            r.consistent(),
    {
        Ledger {
            metadata: Metadata::new(),
            tokens: KeyMap::new(),
            owners: KeyMap::new(),
            operators: KeyMap::new(),
            tx_count: Nat::zero(),
            did_claimed: KeyMap::new(),
            tokenid_to_did: KeyMap::new(),
            did_to_tokenid: KeyMap::new(),
            addr_to_tokenid: KeyMap::new(),
            kyc_map: HashMap::new(),
        }
    }

    /// The collection's metadata.
    pub fn metadata(&self) -> (r: &Metadata)
        ensures
            *r == self.metadata,
    {
        &self.metadata
    }

    /// The collection's metadata, to be changed in place.
    pub fn metadata_mut(&mut self) -> (r: &mut Metadata)
        ensures
            *r == old(self).metadata,
            *final(self) == (Ledger { metadata: *final(r), ..*old(self) }),
    {
        &mut self.metadata
    }

    /// The number of tokens.
    pub fn tokens_count(&self) -> (r: usize)
        ensures
            r == self.tokens@.len(),
    {
        self.tokens.len()
    }

    /// The number of transactions so far.
    pub fn tx_count(&self) -> (r: Nat)
        ensures
            r@ == self.tx_count@,
    {
        self.tx_count.key_copy()
    }

    /// Whether a token with this identifier exists.
    pub fn is_token_existed(&self, token_identifier: &TokenIdentifier) -> (r: bool)
        ensures
            r == self.tokens@.contains_key(token_identifier@),
    {
        self.tokens.contains_key(token_identifier)
    }

    /// The token that carries `did`; the DID must be known.
    pub fn did_to_tokenid(&self, did: &String) -> (r: TokenIdentifier)
        requires
            self.did_to_tokenid@.contains_key(did@),
        ensures
            r@ == self.did_to_tokenid@[did@]@,
    {
        self.did_to_tokenid.get(did).unwrap().key_copy()
    }

    /// The DID that the token carries, if any.
    pub fn tokenid_to_did(&self, tokenid: &TokenIdentifier) -> (r: Option<String>)
        ensures
            r == self.tokenid_to_did@.get(tokenid@),
    {
        match self.tokenid_to_did.get(tokenid) {
            Some(did) => Some(did.clone()),
            None => None,
        }
    }

    /// The token that `addr` has claimed; `addr` must have claimed one.
    pub fn addr_to_tokenid(&self, addr: &Principal) -> (r: TokenIdentifier)
        requires
            self.addr_to_tokenid@.contains_key(addr@),
        ensures
            r@ == self.addr_to_tokenid@[addr@]@,
    {
        self.addr_to_tokenid.get(addr).unwrap().key_copy()
    }

    /// Whether the DID is carried by some token; no DID is never claimed.
    pub fn is_did_claimed(&self, did: Option<&str>) -> (r: bool)
        ensures
            r == match did {
                Some(d) => self.did_to_tokenid@.contains_key(d@),
                None => false,
            },
    {
        match did {
            Some(d) => {
                let key: String = d.to_owned();
                self.did_to_tokenid.contains_key(&key)
            },
            None => false,
        }
    }

    /// The record of a token.
    pub fn token_metadata(&self, token_identifier: &TokenIdentifier) -> (r: Result<
        &TokenMetadata,
        NftError,
    >)
        ensures
            match r {
                Ok(t) => self.tokens@.contains_key(token_identifier@) && *t
                    == self.tokens@[token_identifier@],
                Err(e) => !self.tokens@.contains_key(token_identifier@) && e
                    == NftError::TokenNotFound,
            },
    {
        match self.tokens.get(token_identifier) {
            Some(t) => Ok(t),
            None => Err(NftError::TokenNotFound),
        }
    }

    /// Records a token under its identifier, in place of any earlier record.
    pub fn add_token_metadata(
        &mut self,
        token_identifier: TokenIdentifier,
        token_metadata: TokenMetadata,
    )
        ensures
            *final(self) == (Ledger {
                tokens: final(self).tokens,
                ..*old(self)
            }),
            final(self).tokens@ == old(self).tokens@.insert(token_identifier@, token_metadata),
    {
        self.tokens.insert(token_identifier, token_metadata);
    }

    /// The number of principals that own a token.
    pub fn owners_count(&self) -> (r: usize)
        ensures
            r == self.owners@.len(),
    {
        self.owners.len()
    }

    /// The tokens that `owner` owns.
    pub fn owner_token_identifiers(&self, owner: &Principal) -> (r: Result<
        &KeySet<TokenIdentifier>,
        NftError,
    >)
        ensures
            match r {
                Ok(s) => self.owners@.contains_key(owner@) && *s == self.owners@[owner@],
                Err(e) => !self.owners@.contains_key(owner@) && e == NftError::OwnerNotFound,
            },
    {
        match self.owners.get(owner) {
            Some(s) => Ok(s),
            None => Err(NftError::OwnerNotFound),
        }
    }

    /// The owner recorded for a token.
    pub fn owner_of(&self, token_identifier: &TokenIdentifier) -> (r: Result<
        Option<Principal>,
        NftError,
    >)
        ensures
            match r {
                Ok(o) => self.tokens@.contains_key(token_identifier@) && o
                    == self.tokens@[token_identifier@].owner,
                Err(e) => !self.tokens@.contains_key(token_identifier@) && e
                    == NftError::TokenNotFound,
            },
    {
        match self.token_metadata(token_identifier) {
            Ok(t) => Ok(t.owner),
            Err(e) => Err(e),
        }
    }

    /// Counts one more transaction; the new count.
    pub fn inc_tx(&mut self) -> (r: Nat)
        ensures
            *final(self) == (Ledger { tx_count: final(self).tx_count, ..*old(self) }),
            final(self).tx_count@ == old(self).tx_count@ + 1,
            r@ == final(self).tx_count@,
    {
        self.tx_count = self.tx_count.increment();
        self.tx_count.key_copy()
    }

    /// Stamps the metadata with the time `now` of an upgrade; nothing else
    /// changes.
    pub fn mark_upgraded(&mut self, now: u64)
        ensures
            *final(self) == (Ledger {
                metadata: Metadata { upgraded_at: now, ..old(self).metadata },
                ..*old(self)
            }),
    {
        self.metadata.upgraded_at = now;
    }

    /// Whether `did` is well formed: 1 to 50 digits or lower-case ASCII
    /// letters, then `.icp`.
    pub fn verify_did_format(&mut self, did: &String) -> (r: bool)
        ensures
            *final(self) == *old(self),
            r == valid_did(did@),
    {
        let b_did = did.as_str().as_bytes();
        crate::did::did_bytes_well_formed(b_did)
    }

    /// Moves a token in the owner index from `old_owner` (which must be in
    /// the index when given) to `new_owner`.
    pub fn update_owner_cache(
        &mut self,
        token_identifier: &TokenIdentifier,
        old_owner: Option<Principal>,
        new_owner: Option<Principal>,
    )
        requires
            match old_owner {
                Some(o) => old(self).owners@.contains_key(o@),
                None => true,
            },
        ensures
            *final(self) == (Ledger { owners: final(self).owners, ..*old(self) }),
            owner_sets(final(self).owners@) == moved_owner_sets(
                owner_sets(old(self).owners@),
                token_identifier@,
                principal_view(old_owner),
                principal_view(new_owner),
            ),
    {
        let ghost sets0 = owner_sets(self.owners@);
        let ghost token = token_identifier@;
        if let Some(old_owner) = old_owner {
            let mut set = self.owners.remove(&old_owner).unwrap();
            set.remove(token_identifier);
            if !set.is_empty() {
                self.owners.insert(old_owner, set);
            }
        }
        let ghost after_leaving = match old_owner {
            Some(o) => {
                let rest = sets0[o@].remove(token);
                if rest.is_empty() {
                    sets0.remove(o@)
                } else {
                    sets0.insert(o@, rest)
                }
            },
            None => sets0,
        };
        assert(owner_sets(self.owners@) =~= after_leaving);
        if let Some(new_owner) = new_owner {
            let mut set = match self.owners.remove(&new_owner) {
                Some(s) => s,
                None => KeySet::new(),
            };
            set.insert(token_identifier.key_copy());
            self.owners.insert(new_owner, set);
        }
        assert(owner_sets(self.owners@) =~= moved_owner_sets(
            sets0,
            token,
            principal_view(old_owner),
            principal_view(new_owner),
        ));
    }

    /// Records a KYC result under token, provider and record id, in place of
    /// any earlier one there.
    pub fn add_kyc(
        &mut self,
        token_id: u64,
        kyc_provider: &Principal,
        kyc_id: u64,
        kyc_info: KYCInfo,
    )
        ensures
            *final(self) == (Ledger { kyc_map: final(self).kyc_map, ..*old(self) }),
            kyc_view(final(self).kyc_map@) == kyc_inserted(
                kyc_view(old(self).kyc_map@),
                token_id,
                kyc_provider@,
                kyc_id,
                kyc_info,
            ),
    {
        let ghost v0 = kyc_view(self.kyc_map@);
        let mut providers = match self.kyc_map.remove(&token_id) {
            Some(m) => m,
            None => KeyMap::new(),
        };
        let mut records = match providers.remove(kyc_provider) {
            Some(h) => h,
            None => HashMap::new(),
        };
        records.insert(kyc_id, kyc_info);
        providers.insert(*kyc_provider, records);
        self.kyc_map.insert(token_id, providers);
        proof {
            let v1 = kyc_inserted(v0, token_id, kyc_provider@, kyc_id, kyc_info);
            assert(providers@.map_values(|records: HashMap<u64, KYCInfo>| records@) =~= v1[token_id]);
            assert(kyc_view(self.kyc_map@) =~= v1);
        }
    }

    /// The KYC record under token, provider and record id, if any.
    pub fn get_kyc(&self, token_id: u64, kyc_provider: &Principal, kyc_id: u64) -> (r: Option<
        &KYCInfo,
    >)
        ensures
            match r {
                Some(info) => kyc_lookup(kyc_view(self.kyc_map@), token_id, kyc_provider@, kyc_id)
                    == Some(*info),
                None => kyc_lookup(kyc_view(self.kyc_map@), token_id, kyc_provider@, kyc_id)
                    is None,
            },
    {
        match self.kyc_map.get(&token_id) {
            Some(providers) => match providers.get(kyc_provider) {
                Some(records) => records.get(&kyc_id),
                None => None,
            },
            None => None,
        }
    }

    /// The records of the tokens that `owner` owns, in the order in which its
    /// token set yields them; refused if `owner` owns nothing or one of its
    /// tokens has no record.
    pub fn owner_token_metadata(&self, owner: &Principal) -> (r: Result<
        Vec<&TokenMetadata>,
        NftError,
    >)
        ensures
            owner_records_answer(*self, owner@, r),
    {
        let set = match self.owners.get(owner) {
            Some(s) => s,
            None => return Err(NftError::OwnerNotFound),
        };
        let entries = set.as_slice();
        let ghost ids = entries@.map_values(|e: (TokenIdentifier, ())| e.0@);
        proof {
            crate::keymap::lemma_entries_map(entries@);
            assert(ids.no_duplicates());
            assert(ids.to_set() =~= set@) by {
                assert forall|id: nat| ids.to_set().contains(id) implies set@.contains(id) by {
                    let j = choose|j: int| 0 <= j < ids.len() && ids[j] == id;
                    assert(entries@[j].0@ == id);
                }
                assert forall|id: nat| set@.contains(id) implies ids.to_set().contains(id) by {
                    let j = choose|j: int| 0 <= j < entries@.len() && #[trigger] entries@[j].0@ == id;
                    assert(ids[j] == id);
                }
            }
        }
        let mut result: Vec<&TokenMetadata> = Vec::new();
        let n = entries.len();
        let mut i: usize = 0;
        while i < n
            invariant
                n == entries@.len(),
                n == ids.len(),
                forall|j: int| 0 <= j < n ==> #[trigger] ids[j] == entries@[j].0@,
                i <= n,
                ids.to_set() == set@,
                self.owners@.contains_key(owner@),
                *set == self.owners@[owner@],
                result@.len() == i,
                forall|j: int| 0 <= j < i ==> self.tokens@.contains_key(#[trigger] ids[j]),
                forall|j: int| 0 <= j < i ==> *#[trigger] result@[j] == self.tokens@[ids[j]],
            decreases n - i,
        {
            let id = &entries[i].0;
            let found = self.tokens.get(id);
            if found.is_none() {
                assert(ids.contains(id@)) by {
                    assert(ids[i as int] == id@);
                }
                assert(set@.contains(id@));
                return Err(NftError::TokenNotFound);
            }
            let t = found.unwrap();
            let ghost before = result@;
            result.push(t);
            assert forall|j: int| 0 <= j < i + 1 implies *#[trigger] result@[j]
                == self.tokens@[ids[j]] by {
                if j < i {
                    assert(result@[j] == before[j]);
                }
            }
            i = i + 1;
        }
        assert forall|id: nat| #[trigger] set@.contains(id) implies self.tokens@.contains_key(
            id,
        ) by {
            assert(ids.to_set().contains(id));
            let j = choose|j: int| 0 <= j < ids.len() && ids[j] == id;
            assert(self.tokens@.contains_key(ids[j]));
        }
        Ok(result)
    }

    /// Sets up the metadata at installation, at time `now`: `default_custodian`
    /// and the custodians given become custodians, the name, logo and symbol
    /// given are taken, and both times are set to `now`. The answer is the CAP
    /// router to register with: the one given, else none (the default router).
    pub fn init_metadata(
        &mut self,
        default_custodian: Principal,
        args: Option<InitArgs>,
        now: u64,
    ) -> (r: Option<Principal>)
        ensures
            *final(self) == (Ledger { metadata: final(self).metadata, ..*old(self) }),
            final(self).metadata.custodians@ == match args {
                Some(a) => match a.custodians {
                    Some(c) => old(self).metadata.custodians@.insert(default_custodian@).union(c@),
                    None => old(self).metadata.custodians@.insert(default_custodian@),
                },
                None => old(self).metadata.custodians@.insert(default_custodian@),
            },
            final(self).metadata.name == match args {
                Some(a) => a.name,
                None => old(self).metadata.name,
            },
            final(self).metadata.logo == match args {
                Some(a) => a.logo,
                None => old(self).metadata.logo,
            },
            final(self).metadata.symbol == match args {
                Some(a) => a.symbol,
                None => old(self).metadata.symbol,
            },
            final(self).metadata.created_at == now,
            final(self).metadata.upgraded_at == now,
            r == match args {
                Some(a) => a.cap,
                None => None,
            },
    {
        self.metadata.custodians.insert(default_custodian);
        let cap = match args {
            Some(args) => {
                self.metadata.name = args.name;
                self.metadata.logo = args.logo;
                self.metadata.symbol = args.symbol;
                if let Some(custodians) = args.custodians {
                    self.metadata.custodians.insert_all(&custodians);
                }
                args.cap
            },
            None => None,
        };
        self.metadata.created_at = now;
        self.metadata.upgraded_at = now;
        cap
    }
}

impl Default for Ledger {
    /// The empty ledger.
    fn default() -> (r: Ledger)
        ensures
            r.is_empty_ledger(),
            r.consistent(),
    {
        Ledger::new()
    }
}

} // verus!
