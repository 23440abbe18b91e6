use vstd::prelude::*;

use crate::api::{balance, mint_result, mint_traps, minted};
use crate::did::{
    did_of_properties, did_properties_well_formed, did_text, is_did_name_byte, is_did_property,
    lemma_did_of_properties_is_listed, valid_did, valid_did_bytes,
};
use crate::keymap::lemma_key_set_finite;
use crate::ledger::{
    id_values, kyc_inserted, kyc_lookup, moved_owner_sets, owner_sets, principal_view, Ledger,
};
use crate::principal::Principal;
use crate::legacy::next_token_identifier;
use crate::types::{GenericValue, KYCInfo, NftError, TokenIdentifier};

verus! {

/// The conditions under which `new` is `old` after a successful mint.
spec fn mint_step(
    old: Ledger,
    new: Ledger,
    caller: Principal,
    now: u64,
    to: Principal,
    token_identifier: TokenIdentifier,
    properties: Vec<(String, GenericValue)>,
) -> bool {
    &&& old.consistent()
    &&& !mint_traps(old, to@, token_identifier@, properties@)
    &&& mint_result(old, to@, token_identifier@, properties@) is Ok
    &&& minted(old, new, caller, now, to, token_identifier, properties)
}

/// An index whose values are numbers holds the same keys as the index of
/// their values, and each value there is the number's value.
proof fn lemma_id_values<K>(m: Map<K, TokenIdentifier>)
    ensures
        forall|k: K| #[trigger] id_values(m).contains_key(k) <==> m.contains_key(k),
        forall|k: K| m.contains_key(k) ==> #[trigger] id_values(m)[k] == m[k]@,
{
}

/// How a successful mint changes the owner index: the recipient gains the
/// token, entering the index if it was not there; every other entry stays.
proof fn lemma_minted_owner_index(
    old: Ledger,
    new: Ledger,
    caller: Principal,
    now: u64,
    to: Principal,
    token_identifier: TokenIdentifier,
    properties: Vec<(String, GenericValue)>,
)
    requires
        mint_step(old, new, caller, now, to, token_identifier, properties),
    ensures
        forall|p: Seq<u8>| #[trigger]
            new.owners@.contains_key(p) <==> (p == to@ || old.owners@.contains_key(p)),
        new.owners@[to@]@ == (if old.owners@.contains_key(to@) {
            old.owners@[to@]@
        } else {
            Set::<nat>::empty()
        }).insert(token_identifier@),
        forall|p: Seq<u8>| p != to@ && #[trigger] old.owners@.contains_key(p) ==> new.owners@[p]@ == old.owners@[p]@,
{
    let olds = owner_sets(old.owners@);
    let news = owner_sets(new.owners@);
    assert(new.owners@.dom() == news.dom());
    assert(old.owners@.dom() == olds.dom());
    assert(news[to@] == new.owners@[to@]@);
    assert forall|p: Seq<u8>| p != to@ && #[trigger] old.owners@.contains_key(p) implies new.owners@[p]@
        == old.owners@[p]@ by {
        assert(news[p] == new.owners@[p]@);
        assert(olds[p] == old.owners@[p]@);
    }
    if old.owners@.contains_key(to@) {
        assert(olds[to@] == old.owners@[to@]@);
    }
}

/// After a successful mint every token has an owner whose index entry lists
/// it, and carries the DID it is filed under.
#[verifier::spinoff_prover]
proof fn lemma_mint_keeps_token_records(
    old: Ledger,
    new: Ledger,
    caller: Principal,
    now: u64,
    to: Principal,
    token_identifier: TokenIdentifier,
    properties: Vec<(String, GenericValue)>,
)
    requires
        mint_step(old, new, caller, now, to, token_identifier, properties),
    ensures
        forall|x: nat| #[trigger]
            new.tokens@.contains_key(x) ==> {
                &&& new.tokens@[x].owner is Some
                &&& new.owners@.contains_key(new.tokens@[x].owner->0@)
                &&& new.owners@[new.tokens@[x].owner->0@]@.contains(x)
                &&& new.tokenid_to_did@.contains_key(x)
                &&& new.tokens@[x].did == Some(new.tokenid_to_did@[x])
            },
{
    lemma_minted_owner_index(old, new, caller, now, to, token_identifier, properties);
    let id = token_identifier@;
    assert forall|x: nat| #[trigger] new.tokens@.contains_key(x) implies {
        &&& new.tokens@[x].owner is Some
        &&& new.owners@.contains_key(new.tokens@[x].owner->0@)
        &&& new.owners@[new.tokens@[x].owner->0@]@.contains(x)
        &&& new.tokenid_to_did@.contains_key(x)
        &&& new.tokens@[x].did == Some(new.tokenid_to_did@[x])
    } by {
        if x != id {
            assert(old.tokens@.contains_key(x));
            let o = old.tokens@[x].owner->0@;
            assert(old.owners@.contains_key(o));
            assert(old.owners@[o]@.contains(x));
        }
    }
}

/// After a successful mint the owner index lists only the tokens of each
/// principal, and no principal without a token.
#[verifier::spinoff_prover]
proof fn lemma_mint_keeps_owner_index(
    old: Ledger,
    new: Ledger,
    caller: Principal,
    now: u64,
    to: Principal,
    token_identifier: TokenIdentifier,
    properties: Vec<(String, GenericValue)>,
)
    requires
        mint_step(old, new, caller, now, to, token_identifier, properties),
    ensures
        forall|p: Seq<u8>| #[trigger]
            new.owners@.contains_key(p) ==> {
                &&& !new.owners@[p]@.is_empty()
                &&& forall|x: nat| #[trigger]
                    new.owners@[p]@.contains(x) ==> new.tokens@.contains_key(x) && principal_view(
                        new.tokens@[x].owner,
                    ) == Some(p)
            },
{
    lemma_minted_owner_index(old, new, caller, now, to, token_identifier, properties);
    let id = token_identifier@;
    assert forall|p: Seq<u8>| #[trigger] new.owners@.contains_key(p) implies {
        &&& !new.owners@[p]@.is_empty()
        &&& forall|x: nat| #[trigger]
            new.owners@[p]@.contains(x) ==> new.tokens@.contains_key(x) && principal_view(
                new.tokens@[x].owner,
            ) == Some(p)
    } by {
        if p == to@ {
            assert(new.owners@[p]@.contains(id));
            assert forall|x: nat| #[trigger] new.owners@[p]@.contains(x) implies new.tokens@.contains_key(
                x,
            ) && principal_view(new.tokens@[x].owner) == Some(p) by {
                if x != id {
                    assert(old.owners@[p]@.contains(x));
                }
            }
        } else {
            assert(old.owners@.contains_key(p));
            assert(!old.owners@[p]@.is_empty());
            assert forall|x: nat| #[trigger] new.owners@[p]@.contains(x) implies new.tokens@.contains_key(
                x,
            ) && principal_view(new.tokens@[x].owner) == Some(p) by {
                assert(old.owners@[p]@.contains(x));
                assert(old.tokens@.contains_key(x));
            }
        }
    }
}

/// After a successful mint the two DID indexes still undo each other, every
/// DID they hold is well formed, and every claimed address owns its token.
#[verifier::spinoff_prover]
proof fn lemma_mint_keeps_did_and_claim_indexes(
    old: Ledger,
    new: Ledger,
    caller: Principal,
    now: u64,
    to: Principal,
    token_identifier: TokenIdentifier,
    properties: Vec<(String, GenericValue)>,
)
    requires
        mint_step(old, new, caller, now, to, token_identifier, properties),
    ensures
        forall|x: nat| #[trigger]
            new.tokenid_to_did@.contains_key(x) ==> {
                &&& new.tokens@.contains_key(x)
                &&& new.did_to_tokenid@.contains_key(new.tokenid_to_did@[x]@)
                &&& new.did_to_tokenid@[new.tokenid_to_did@[x]@]@ == x
            },
        forall|d: Seq<char>| #[trigger]
            new.did_to_tokenid@.contains_key(d) ==> {
                &&& valid_did(d)
                &&& new.tokenid_to_did@.contains_key(new.did_to_tokenid@[d]@)
                &&& new.tokenid_to_did@[new.did_to_tokenid@[d]@]@ == d
            },
        forall|p: Seq<u8>| #[trigger]
            new.addr_to_tokenid@.contains_key(p) ==> {
                &&& new.tokens@.contains_key(new.addr_to_tokenid@[p]@)
                &&& principal_view(new.tokens@[new.addr_to_tokenid@[p]@].owner) == Some(p)
            },
{
    let id = token_identifier@;
    let did = did_of_properties(properties@)->0;
    law_minted_did_is_well_formed(old, to@, id, properties@);
    lemma_id_values(old.did_to_tokenid@);
    lemma_id_values(new.did_to_tokenid@);
    lemma_id_values(old.addr_to_tokenid@);
    lemma_id_values(new.addr_to_tokenid@);
    assert(!old.tokenid_to_did@.contains_key(id));
    assert forall|x: nat| #[trigger] new.tokenid_to_did@.contains_key(x) implies {
        &&& new.tokens@.contains_key(x)
        &&& new.did_to_tokenid@.contains_key(new.tokenid_to_did@[x]@)
        &&& new.did_to_tokenid@[new.tokenid_to_did@[x]@]@ == x
    } by {
        if x != id {
            let d = old.tokenid_to_did@[x]@;
            assert(old.tokenid_to_did@.contains_key(x));
            assert(new.tokenid_to_did@[x] == old.tokenid_to_did@[x]);
            assert(old.did_to_tokenid@.contains_key(d));
            assert(old.did_to_tokenid@[d]@ == x);
            assert(d != did@);
            assert(id_values(old.did_to_tokenid@)[d] == x);
            assert(id_values(new.did_to_tokenid@).contains_key(d));
            assert(id_values(new.did_to_tokenid@)[d] == x);
        } else {
            assert(new.tokenid_to_did@[x] == did);
            assert(id_values(new.did_to_tokenid@).contains_key(did@));
            assert(id_values(new.did_to_tokenid@)[did@] == x);
        }
    }
    assert forall|d: Seq<char>| #[trigger] new.did_to_tokenid@.contains_key(d) implies {
        &&& valid_did(d)
        &&& new.tokenid_to_did@.contains_key(new.did_to_tokenid@[d]@)
        &&& new.tokenid_to_did@[new.did_to_tokenid@[d]@]@ == d
    } by {
        assert(id_values(new.did_to_tokenid@).contains_key(d));
        if d != did@ {
            assert(old.did_to_tokenid@.contains_key(d));
            assert(id_values(new.did_to_tokenid@)[d] == id_values(old.did_to_tokenid@)[d]);
            assert(valid_did(d));
            assert(old.tokenid_to_did@.contains_key(old.did_to_tokenid@[d]@));
            assert(old.did_to_tokenid@[d]@ != id);
        } else {
            assert(id_values(new.did_to_tokenid@)[d] == id);
        }
    }
    assert forall|p: Seq<u8>| #[trigger] new.addr_to_tokenid@.contains_key(p) implies {
        &&& new.tokens@.contains_key(new.addr_to_tokenid@[p]@)
        &&& principal_view(new.tokens@[new.addr_to_tokenid@[p]@].owner) == Some(p)
    } by {
        assert(id_values(new.addr_to_tokenid@).contains_key(p));
        if p != to@ {
            assert(old.addr_to_tokenid@.contains_key(p));
            assert(id_values(new.addr_to_tokenid@)[p] == id_values(old.addr_to_tokenid@)[p]);
            assert(old.tokens@.contains_key(old.addr_to_tokenid@[p]@));
            assert(old.addr_to_tokenid@[p]@ != id);
        } else {
            assert(id_values(new.addr_to_tokenid@)[p] == id);
        }
    }
}

/// Minting keeps the ledger's indexes in agreement with its token records,
/// and every DID it holds well formed.
pub proof fn law_mint_keeps_ledger_consistent(
    old: Ledger,
    new: Ledger,
    caller: Principal,
    now: u64,
    to: Principal,
    token_identifier: TokenIdentifier,
    properties: Vec<(String, GenericValue)>,
)
    requires
        old.consistent(),
        !mint_traps(old, to@, token_identifier@, properties@),
        mint_result(old, to@, token_identifier@, properties@) is Ok,
        minted(old, new, caller, now, to, token_identifier, properties),
    ensures
        new.consistent(),
{
    lemma_mint_keeps_token_records(old, new, caller, now, to, token_identifier, properties);
    lemma_mint_keeps_owner_index(old, new, caller, now, to, token_identifier, properties);
    lemma_mint_keeps_did_and_claim_indexes(old, new, caller, now, to, token_identifier, properties);
}

/// On a consistent ledger a successful mint gives the recipient one token
/// more (one, where it owned none) and leaves every other balance as it was.
pub proof fn law_mint_raises_recipient_balance(
    old: Ledger,
    new: Ledger,
    caller: Principal,
    now: u64,
    to: Principal,
    token_identifier: TokenIdentifier,
    properties: Vec<(String, GenericValue)>,
    other: Seq<u8>,
)
    requires
        old.consistent(),
        !mint_traps(old, to@, token_identifier@, properties@),
        mint_result(old, to@, token_identifier@, properties@) is Ok,
        minted(old, new, caller, now, to, token_identifier, properties),
        other != to@,
    ensures
        balance(new, to@) == match balance(old, to@) {
            Ok(b) => Ok::<nat, NftError>(b + 1),
            Err(_) => Ok::<nat, NftError>(1),
        },
        balance(new, other) == balance(old, other),
{
    lemma_minted_owner_index(old, new, caller, now, to, token_identifier, properties);
    let id = token_identifier@;
    if old.owners@.contains_key(to@) {
        let s = old.owners@[to@];
        lemma_key_set_finite(&s);
        assert(!s@.contains(id));
    } else {
        assert(Set::<nat>::empty().insert(id).len() == 1);
    }
}

/// A DID is minted at most once: once a token carries it, every later mint
/// that names the same DID is refused.
pub proof fn law_did_minted_once(
    l1: Ledger,
    l2: Ledger,
    caller: Principal,
    now: u64,
    to: Principal,
    token_identifier: TokenIdentifier,
    properties: Vec<(String, GenericValue)>,
    to2: Seq<u8>,
    token_identifier2: nat,
    properties2: Seq<(String, GenericValue)>,
)
    requires
        mint_result(l1, to@, token_identifier@, properties@) is Ok,
        minted(l1, l2, caller, now, to, token_identifier, properties),
        did_of_properties(properties2) is Some,
        did_of_properties(properties2)->0@ == did_of_properties(properties@)->0@,
    ensures
        mint_result(l2, to2, token_identifier2, properties2) is Err,
{
    let did = did_of_properties(properties@)->0@;
    lemma_id_values(l2.did_to_tokenid@);
    assert(id_values(l2.did_to_tokenid@).contains_key(did));
}

/// A principal claims at most one token: once it has received one, every
/// later mint for it is refused.
pub proof fn law_address_claims_once(
    l1: Ledger,
    l2: Ledger,
    caller: Principal,
    now: u64,
    to: Principal,
    token_identifier: TokenIdentifier,
    properties: Vec<(String, GenericValue)>,
    token_identifier2: nat,
    properties2: Seq<(String, GenericValue)>,
)
    requires
        mint_result(l1, to@, token_identifier@, properties@) is Ok,
        minted(l1, l2, caller, now, to, token_identifier, properties),
    ensures
        mint_result(l2, to@, token_identifier2, properties2) is Err,
{
    lemma_id_values(l2.addr_to_tokenid@);
    assert(id_values(l2.addr_to_tokenid@).contains_key(to@));
}

/// A token identifier is used at most once: minting it again is refused as
/// an existing token.
pub proof fn law_token_identifier_minted_once(
    l1: Ledger,
    l2: Ledger,
    caller: Principal,
    now: u64,
    to: Principal,
    token_identifier: TokenIdentifier,
    properties: Vec<(String, GenericValue)>,
    to2: Seq<u8>,
    properties2: Seq<(String, GenericValue)>,
)
    requires
        mint_result(l1, to@, token_identifier@, properties@) is Ok,
        minted(l1, l2, caller, now, to, token_identifier, properties),
    ensures
        mint_result(l2, to2, token_identifier@, properties2) == Err::<nat, NftError>(
            NftError::ExistedNFT,
        ),
{
    assert(l2.tokens@.contains_key(token_identifier@));
}

/// Successful mints are numbered by consecutive transaction indexes, and each
/// adds one token to the supply.
pub proof fn law_mints_numbered_consecutively(
    l1: Ledger,
    l2: Ledger,
    l3: Ledger,
    caller: Principal,
    now: u64,
    to: Principal,
    token_identifier: TokenIdentifier,
    properties: Vec<(String, GenericValue)>,
    caller2: Principal,
    now2: u64,
    to2: Principal,
    token_identifier2: TokenIdentifier,
    properties2: Vec<(String, GenericValue)>,
)
    requires
        mint_result(l1, to@, token_identifier@, properties@) is Ok,
        minted(l1, l2, caller, now, to, token_identifier, properties),
        mint_result(l2, to2@, token_identifier2@, properties2@) is Ok,
        minted(l2, l3, caller2, now2, to2, token_identifier2, properties2),
    ensures
        mint_result(l2, to2@, token_identifier2@, properties2@)->Ok_0 == mint_result(
            l1,
            to@,
            token_identifier@,
            properties@,
        )->Ok_0 + 1,
        l2.tokens@.len() == l1.tokens@.len() + 1,
        l3.tokens@.len() == l1.tokens@.len() + 2,
{
    crate::keymap::lemma_key_map_finite(&l1.tokens);
}

/// How many of the steps were successful mints.
pub open spec fn successful_mints(steps: Seq<bool>) -> nat
    decreases steps.len(),
{
    if steps.len() == 0 {
        0
    } else {
        successful_mints(steps.drop_last()) + if steps.last() {
            1nat
        } else {
            0nat
        }
    }
}

/// One step of the ledger's history through its entry points: a successful
/// mint counts one transaction, and every other update, a refused mint
/// included, counts none.
pub open spec fn counted_step(before: Ledger, after: Ledger, minted_ok: bool) -> bool {
    after.tx_count@ == before.tx_count@ + if minted_ok {
        1nat
    } else {
        0nat
    }
}

/// The transaction count is the number of successful mints: along any
/// history that starts from the empty ledger and in which each step counts
/// as its update does, the count at the end is the number of steps that
/// were successful mints.
pub proof fn law_transactions_count_successful_mints(ledgers: Seq<Ledger>, steps: Seq<bool>)
    requires
        ledgers.len() == steps.len() + 1,
        ledgers[0].is_empty_ledger(),
        forall|i: int| 0 <= i < steps.len() ==> counted_step(ledgers[i], ledgers[i + 1], #[trigger] steps[i]),
    ensures
        ledgers.last().tx_count@ == successful_mints(steps),
    decreases steps.len(),
{
    if steps.len() > 0 {
        let n = steps.len() - 1;
        law_transactions_count_successful_mints(ledgers.drop_last(), steps.drop_last());
        assert(counted_step(ledgers[n], ledgers[n + 1], steps[n]));
        assert(ledgers.drop_last().last() == ledgers[n]);
    }
}

/// In a consistent ledger the two DID indexes undo each other: the token
/// filed under a DID carries that DID.
pub proof fn law_did_indexes_round_trip(l: Ledger, did: Seq<char>)
    requires
        l.consistent(),
        l.did_to_tokenid@.contains_key(did),
    ensures
        l.tokenid_to_did@.contains_key(l.did_to_tokenid@[did]@),
        l.tokenid_to_did@[l.did_to_tokenid@[did]@]@ == did,
        l.tokens@.contains_key(l.did_to_tokenid@[did]@),
        l.tokens@[l.did_to_tokenid@[did]@].did == Some(l.tokenid_to_did@[l.did_to_tokenid@[did]@]),
{
    let id = l.did_to_tokenid@[did]@;
    assert(l.tokenid_to_did@.contains_key(id));
    assert(l.tokens@.contains_key(id));
}

/// In a consistent ledger the owner recorded for a token and the owner
/// index agree: a principal's token set holds exactly the tokens recorded
/// as its own.
pub proof fn law_owner_index_agrees(l: Ledger, owner: Seq<u8>, token_identifier: nat)
    requires
        l.consistent(),
    ensures
        (l.owners@.contains_key(owner) && l.owners@[owner]@.contains(token_identifier)) <==> (
        l.tokens@.contains_key(token_identifier) && principal_view(
            l.tokens@[token_identifier].owner,
        ) == Some(owner)),
{
    if l.tokens@.contains_key(token_identifier) && principal_view(
        l.tokens@[token_identifier].owner,
    ) == Some(owner) {
        assert(l.tokens@[token_identifier].owner->0@ == owner);
    }
    if l.owners@.contains_key(owner) && l.owners@[owner]@.contains(token_identifier) {
        assert(l.tokens@.contains_key(token_identifier));
    }
}

/// A KYC record reads back as written, and writing it leaves every other
/// record as it was.
pub proof fn law_kyc_read_after_write(
    v: Map<u64, Map<Seq<u8>, Map<u64, KYCInfo>>>,
    token_id: u64,
    provider: Seq<u8>,
    kyc_id: u64,
    info: KYCInfo,
    token_id2: u64,
    provider2: Seq<u8>,
    kyc_id2: u64,
)
    ensures
        kyc_lookup(kyc_inserted(v, token_id, provider, kyc_id, info), token_id2, provider2, kyc_id2)
            == if token_id2 == token_id && provider2 == provider && kyc_id2 == kyc_id {
            Some(info)
        } else {
            kyc_lookup(v, token_id2, provider2, kyc_id2)
        },
{
}

/// Moving a token in the owner index: the new owner's set is the set it had
/// (none, if it was not in the index) with the token added, whoever the old
/// owner was; the old owner, when another principal, loses the token and
/// drops out of the index when it owns nothing more; every other owner keeps
/// its set, and no other principal enters the index.
pub proof fn law_move_token_between_owners(
    sets: Map<Seq<u8>, Set<nat>>,
    token_identifier: nat,
    old_owner: Option<Seq<u8>>,
    new_owner: Seq<u8>,
)
    requires
        old_owner is Some ==> sets.contains_key(old_owner->0),
    ensures
        ({
            let moved = moved_owner_sets(sets, token_identifier, old_owner, Some(new_owner));
            &&& moved.contains_key(new_owner)
            &&& moved[new_owner] == (if sets.contains_key(new_owner) {
                sets[new_owner]
            } else {
                Set::<nat>::empty()
            }).insert(token_identifier)
            &&& (old_owner is Some && old_owner->0 != new_owner) ==> {
                &&& moved.contains_key(old_owner->0) <==> !sets[old_owner->0].remove(
                    token_identifier,
                ).is_empty()
                &&& moved.contains_key(old_owner->0) ==> moved[old_owner->0] == sets[old_owner->0].remove(
                    token_identifier,
                )
            }
            &&& forall|p: Seq<u8>|
                p != new_owner && !(old_owner == Some(p)) ==> (#[trigger] moved.contains_key(p)
                    <==> sets.contains_key(p)) && (moved.contains_key(p) ==> moved[p] == sets[p])
        }),
{
    let moved = moved_owner_sets(sets, token_identifier, old_owner, Some(new_owner));
    if let Some(o) = old_owner {
        if o == new_owner {
            let rest = sets[o].remove(token_identifier);
            if rest.is_empty() {
                assert(Set::<nat>::empty().insert(token_identifier) =~= sets[o].insert(
                    token_identifier,
                )) by {
                    assert forall|x: nat| sets[o].contains(x) implies x == token_identifier by {
                        if x != token_identifier {
                            assert(rest.contains(x));
                        }
                    }
                }
            } else {
                assert(rest.insert(token_identifier) =~= sets[o].insert(token_identifier));
            }
        }
    }
}

/// Taking a token from an owner and giving it back to it leaves the owner
/// holding the token, with its other tokens kept.
pub proof fn law_move_token_to_its_owner(
    sets: Map<Seq<u8>, Set<nat>>,
    token_identifier: nat,
    owner: Seq<u8>,
)
    requires
        sets.contains_key(owner),
    ensures
        moved_owner_sets(sets, token_identifier, Some(owner), Some(owner))[owner] == sets[owner].insert(
            token_identifier,
        ),
        sets[owner].subset_of(
            moved_owner_sets(sets, token_identifier, Some(owner), Some(owner))[owner],
        ),
{
    law_move_token_between_owners(sets, token_identifier, Some(owner), owner);
}

/// Every DID that a successful mint records is well formed: digits and
/// lower-case letters, then `.icp`.
pub proof fn law_minted_did_is_well_formed(
    l: Ledger,
    to: Seq<u8>,
    token_identifier: nat,
    properties: Seq<(String, GenericValue)>,
)
    requires
        !mint_traps(l, to, token_identifier, properties),
        mint_result(l, to, token_identifier, properties) is Ok,
    ensures
        did_of_properties(properties) is Some,
        valid_did(did_of_properties(properties)->0@),
{
    lemma_did_of_properties_is_listed(properties);
}

/// The DID a mint uses is the text of the last property, anywhere in the
/// list, whose key is `did` and whose value is text.
pub proof fn law_mint_uses_last_did_property(props: Seq<(String, GenericValue)>, i: int)
    requires
        0 <= i < props.len(),
        props[i].0@ == seq!['d', 'i', 'd'],
        props[i].1 is TextContent,
        forall|j: int|
            i < j < props.len() ==> !(#[trigger] props[j].0@ == seq!['d', 'i', 'd'] && props[j].1 is TextContent),
    ensures
        did_of_properties(props) is Some,
        props[i].1 == GenericValue::TextContent(did_of_properties(props)->0),
    decreases props.len(),
{
    if i < props.len() - 1 {
        let last = props.len() - 1;
        assert(!(props[last].0@ == seq!['d', 'i', 'd'] && props[last].1 is TextContent));
        assert(!is_did_property(props.last()));
        law_mint_uses_last_did_property(props.drop_last(), i);
        assert(props.drop_last()[i] == props[i]);
    } else {
        assert(is_did_property(props.last()));
    }
}

/// A list of properties with no text under the key `did` names no DID, so a
/// mint with it is refused as missing its DID.
pub proof fn law_mint_without_did_property(props: Seq<(String, GenericValue)>)
    requires
        forall|j: int|
            0 <= j < props.len() ==> !(#[trigger] props[j].0@ == seq!['d', 'i', 'd'] && props[j].1 is TextContent),
    ensures
        did_of_properties(props) is None,
    decreases props.len(),
{
    if props.len() > 0 {
        let last = props.len() - 1;
        assert(!(props[last].0@ == seq!['d', 'i', 'd'] && props[last].1 is TextContent));
        assert forall|j: int| 0 <= j < props.drop_last().len() implies !(
        #[trigger] props.drop_last()[j].0@ == seq!['d', 'i', 'd'] && props.drop_last()[j].1 is TextContent) by {
            assert(props.drop_last()[j] == props[j]);
        }
        law_mint_without_did_property(props.drop_last());
    }
}

/// A DID is well formed, in UTF-8, exactly when it is 5 to 54 bytes long,
/// every byte before its last four is an ASCII digit (`0` to `9`, bytes 48
/// to 57) or lower-case letter (`a` to `z`, bytes 97 to 122), and it ends in
/// `.icp` (bytes 46, 105, 99, 112).
pub proof fn law_did_format(b: Seq<u8>)
    ensures
        valid_did_bytes(b) <==> {
            &&& 5 <= b.len() <= 54
            &&& forall|i: int| 0 <= i < b.len() - 4 ==> (48 <= #[trigger] b[i] <= 57 || 97 <= b[i] <= 122)
            &&& b[b.len() - 4] == 46
            &&& b[b.len() - 3] == 105
            &&& b[b.len() - 2] == 99
            &&& b[b.len() - 1] == 112
        },
{
    if forall|i: int| 0 <= i < b.len() - 4 ==> #[trigger] is_did_name_byte(b[i]) {
        assert forall|i: int| 0 <= i < b.len() - 4 implies (48 <= #[trigger] b[i] <= 57 || 97 <= b[i]
            <= 122) by {
            assert(is_did_name_byte(b[i]));
        }
    }
    if forall|i: int| 0 <= i < b.len() - 4 ==> (48 <= #[trigger] b[i] <= 57 || 97 <= b[i] <= 122) {
        assert forall|i: int| 0 <= i < b.len() - 4 implies #[trigger] is_did_name_byte(b[i]) by {
            assert(48 <= b[i] <= 57 || 97 <= b[i] <= 122);
        }
    }
}

/// A one-character name followed by `.icp` is a well-formed DID exactly
/// when the character is one of the 36 ASCII digits and lower-case letters.
pub proof fn law_single_character_did(c: u8)
    ensures
        valid_did_bytes(seq![c, 46u8, 105u8, 99u8, 112u8]) <==> (48 <= c <= 57 || 97 <= c <= 122),
{
    let b = seq![c, 46u8, 105u8, 99u8, 112u8];
    law_did_format(b);
    assert(b[0] == c);
}

/// A mint stops the canister exactly when the token is new, the recipient
/// has claimed nothing, and some property under the key `did` holds text
/// that is not a well-formed DID; with every such text well formed, a mint
/// answers instead (a DID already carried is refused, not trapped on).
pub proof fn law_mint_traps_only_on_a_malformed_did(
    l: Ledger,
    to: Seq<u8>,
    token_identifier: nat,
    props: Seq<(String, GenericValue)>,
)
    ensures
        mint_traps(l, to, token_identifier, props) <==> {
            &&& !l.tokens@.contains_key(token_identifier)
            &&& !l.addr_to_tokenid@.contains_key(to)
            &&& exists|i: int|
                0 <= i < props.len() && #[trigger] props[i].0@ == seq!['d', 'i', 'd'] && (
                props[i].1 matches GenericValue::TextContent(t) && !valid_did(t@))
        },
{
    if !did_properties_well_formed(props) {
        let i = choose|i: int|
            0 <= i < props.len() && #[trigger] is_did_property(props[i]) && !valid_did(
                did_text(props[i])@,
            );
        assert(props[i].0@ == seq!['d', 'i', 'd']);
    }
    if exists|i: int|
        0 <= i < props.len() && #[trigger] props[i].0@ == seq!['d', 'i', 'd'] && (
        props[i].1 matches GenericValue::TextContent(t) && !valid_did(t@)) {
        let i = choose|i: int|
            0 <= i < props.len() && #[trigger] props[i].0@ == seq!['d', 'i', 'd'] && (
            props[i].1 matches GenericValue::TextContent(t) && !valid_did(t@));
        assert(is_did_property(props[i]));
        assert(!valid_did(did_text(props[i])@));
    }
}

/// The identifier of an automatic mint is one more than the number of
/// tokens, whatever their number.
pub proof fn law_automatic_identifier_follows_supply(l: Ledger)
    ensures
        next_token_identifier(l) == l.tokens@.len() + 1,
{
}

/// Where every token identifier lies between one and the number of tokens
/// (as automatic mints leave them), the automatic identifier is unused, so
/// an automatic mint is never refused as an existing token; and a successful
/// one keeps every identifier between one and the new number of tokens.
pub proof fn law_automatic_identifiers_stay_fresh(
    l: Ledger,
    l2: Ledger,
    caller: Principal,
    now: u64,
    to: Principal,
    token_identifier: TokenIdentifier,
    properties: Vec<(String, GenericValue)>,
    to2: Seq<u8>,
    properties2: Seq<(String, GenericValue)>,
)
    requires
        forall|k: nat| #[trigger] l.tokens@.contains_key(k) ==> 1 <= k <= l.tokens@.len(),
    ensures
        !l.tokens@.contains_key(next_token_identifier(l)),
        mint_result(l, to2, next_token_identifier(l), properties2) != Err::<nat, NftError>(
            NftError::ExistedNFT,
        ),
        token_identifier@ == next_token_identifier(l) && mint_result(
            l,
            to@,
            token_identifier@,
            properties@,
        ) is Ok && minted(l, l2, caller, now, to, token_identifier, properties) ==> forall|
            k: nat,
        | #[trigger] l2.tokens@.contains_key(k) ==> 1 <= k <= l2.tokens@.len(),
{
    crate::keymap::lemma_key_map_finite(&l.tokens);
}

/// A successful mint records, under the new identifier, a token that
/// carries the DID named in the properties and those properties, is owned
/// by the recipient with no operator, was minted by the caller at the time
/// given, and was never transferred, approved or burned; the DID and the
/// recipient are filed under the new identifier, and the supply grows by one.
pub proof fn law_minted_token_record(
    old: Ledger,
    new: Ledger,
    caller: Principal,
    now: u64,
    to: Principal,
    token_identifier: TokenIdentifier,
    properties: Vec<(String, GenericValue)>,
)
    requires
        mint_result(old, to@, token_identifier@, properties@) is Ok,
        minted(old, new, caller, now, to, token_identifier, properties),
    ensures
        ({
            let id = token_identifier@;
            let t = new.tokens@[id];
            &&& new.tokens@.contains_key(id)
            &&& t.token_identifier@ == id
            &&& t.did == did_of_properties(properties@)
            &&& t.did is Some
            &&& t.owner == Some(to)
            &&& t.operator is None
            &&& !t.is_burned
            &&& t.properties == properties
            &&& t.minted_at == now
            &&& t.minted_by == caller
            &&& t.transferred_at is None && t.transferred_by is None
            &&& t.approved_at is None && t.approved_by is None
            &&& t.burned_at is None && t.burned_by is None
            &&& new.tokenid_to_did@.contains_key(id)
            &&& Some(new.tokenid_to_did@[id]) == did_of_properties(properties@)
            &&& new.did_to_tokenid@.contains_key(new.tokenid_to_did@[id]@)
            &&& new.did_to_tokenid@[new.tokenid_to_did@[id]@]@ == id
            &&& new.addr_to_tokenid@.contains_key(to@)
            &&& new.addr_to_tokenid@[to@]@ == id
            &&& new.tokens@.len() == old.tokens@.len() + 1
        }),
{
    let id = token_identifier@;
    let did = did_of_properties(properties@)->0;
    lemma_id_values(new.did_to_tokenid@);
    lemma_id_values(new.addr_to_tokenid@);
    assert(id_values(new.did_to_tokenid@).contains_key(did@));
    assert(id_values(new.did_to_tokenid@)[did@] == id);
    assert(new.tokenid_to_did@[id] == did);
    assert(new.did_to_tokenid@[did@]@ == id);
    assert(id_values(new.addr_to_tokenid@).contains_key(to@));
    assert(id_values(new.addr_to_tokenid@)[to@] == id);
    crate::keymap::lemma_key_map_finite(&old.tokens);
}

/// In a consistent ledger a principal's balance is the number of tokens
/// recorded as its own, and it is refused exactly when no token is.
pub proof fn law_balance_counts_owned_tokens(l: Ledger, owner: Seq<u8>)
    requires
        l.consistent(),
    ensures
        ({
            let owned = Set::new(
                |id: nat| l.tokens@.contains_key(id) && principal_view(l.tokens@[id].owner) == Some(owner),
            );
            &&& owned.is_empty() ==> balance(l, owner) == Err::<nat, NftError>(NftError::OwnerNotFound)
            &&& !owned.is_empty() ==> balance(l, owner) == Ok::<nat, NftError>(owned.len())
        }),
{
    let owned = Set::new(
        |id: nat| l.tokens@.contains_key(id) && principal_view(l.tokens@[id].owner) == Some(owner),
    );
    if l.owners@.contains_key(owner) {
        assert(l.owners@[owner]@ =~= owned) by {
            assert forall|id: nat| owned.contains(id) implies l.owners@[owner]@.contains(id) by {
                assert(l.tokens@[id].owner->0@ == owner);
            }
        }
        assert(!l.owners@[owner]@.is_empty());
    } else {
        assert forall|id: nat| !owned.contains(id) by {
            if owned.contains(id) {
                assert(l.tokens@[id].owner->0@ == owner);
            }
        }
        assert(owned =~= Set::<nat>::empty());
    }
}

} // verus!
