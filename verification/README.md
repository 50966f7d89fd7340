# elven_nft_minter

A verified model of an NFT minter contract for the MultiversX chain: a collection of NFTs sold
at a fixed price and minted in a random order, with per-address limits, drops, an allowlist,
giveaways and owner settings.

- `src/` is the library, verified with Verus. `model.rs` states the contract's storage as
  mathematical values (`MinterState`), its invariant and what every endpoint does;
  `storage.rs`, `operations.rs`, `setup.rs` and `lib.rs` declare the endpoints with their
  contracts; `minter.rs` implements them; `laws.rs` proves the properties that span calls
  (each minted index is distinct and leaves the pool, payments, limits, drops, ...), among
  them that over any sequence of `mint`, `giveaway` and `shuffle` calls after the collection
  is issued, no index is minted twice and every index is minted once the supply is sold.
- The library takes everything that comes from the chain as plain values: the caller, the
  owner, the EGLD paid, whether the contract holds the NFT-create role, and one random `u32`
  per draw. It answers with the new storage and a list of actions (create and send an NFT,
  send EGLD, issue the collection, ask for the create role). A refused call changes nothing.
- `app/` is the contract shell: storage mappers, payments, randomness, hashing and the calls
  to the chain, around the library.
- `tests/` runs the library on concrete scenarios.
