# hashkey_did

A verified ledger for HashKey DID: a DIP721-style NFT collection in which
every principal may claim one token and every token carries one
decentralised identifier (DID), with KYC records kept per token, provider
and record id.

- `src/` is the library, written in Verus. Its operations are proved against
  their contracts, and `src/laws.rs` proves the properties that span
  operations: minting keeps the indexes in agreement with the token records,
  a DID, an address and a token identifier are each minted at most once,
  mints are numbered consecutively, a mint raises the recipient's balance by
  one and no other, the transaction count is the number of successful mints,
  every recorded DID is well formed, and KYC records read back as written.
  Token identifiers and the transaction count are natural numbers of any
  size (`src/natural.rs`).
- `tests/` runs the library on concrete cases.
- `app/` is the Internet Computer canister around the library: it reads the
  caller, the time and the cycle balance, keeps the ledger between calls,
  reports mints to CAP, saves the ledger across upgrades and converts between
  the Candid wire types and the library's types.
