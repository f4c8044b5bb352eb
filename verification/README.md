# stellar-nebula-nomad

The game rules of Nebula Nomad, a Soroban exploration game, as a Verus-verified
library, with the Soroban contract that exposes them.

- `src/` — the verified library.
  - `nebula_explorer.rs`: ledger-seeded 16x16 nebula maps (xorshift64 over a
    SHA-256 of the player's seed and the ledger), rarity scoring, layout
    fingerprints.
  - `nomad_bonding.rs`: bonds between two players, yield delegation and
    essence transfers, as operations on a `BondLedger` whose invariant every
    operation keeps.
  - `theme_customizer.rs`, `indexer_callbacks.rs`: theme presets and the
    stored ship themes; indexer callback registrations.
  - `resource_minter.rs`: pro-rated staking yield.
  - `text_map.rs`: the text-keyed association list used for records keyed by
    a symbol or an address.
  - `host.rs`: the Soroban host types, SHA-256 and ledger reads the library
    relies on; their contracts are trusted.
- `app/` — the Soroban contract: authorisation, events, and storage of the
  library's state, converting between host values and the library's types.
- `tests/` — tests of the library.
