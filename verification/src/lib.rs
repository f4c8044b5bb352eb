//! Procedural nebula generation, ship themes, indexer callbacks and nomad
//! bonding for the Nebula Nomad exploration game, with their contracts.

pub mod host;
pub mod indexer_callbacks;
pub mod nebula_explorer;
pub mod nomad_bonding;
pub mod resource_minter;
pub mod text_map;
pub mod theme_customizer;

pub use indexer_callbacks::{
    get_callback_status, register_indexer_callback, IndexerCallback, IndexerError,
    IndexerRegistry,
};
pub use nebula_explorer::{
    calculate_rarity_tier, cell_type_from_val, compute_combined_hash, compute_layout_hash,
    energy_for_cell, generate_nebula_layout, layout_from_combined_hash, rarity_from_score,
    rarity_score, seed_from_hash, CellType, NebulaCell, NebulaLayout, Rarity, Xorshift64,
    GRID_SIZE, TOTAL_CELLS,
};
pub use nomad_bonding::{
    accept_bond, accrue_essence, claim_yield, create_bond, delegate_yield, dissolve_bond,
    get_bond, get_essence_balance, get_yield_delegation, BondError, BondLedger, BondStatus,
    NomadBond, YieldDelegation,
};
pub use resource_minter::{
    calculate_yield, Resource, StakeRecord, BPS_DENOM, LEDGERS_PER_DAY, LEDGERS_PER_YEAR,
};
pub use text_map::{TextEntry, TextMap};
pub use theme_customizer::{
    apply_theme, generate_theme_preview, get_theme, ShipTheme, ShipThemes, ThemeError,
    ThemePreview,
};

use vstd::prelude::*;

use crate::host::sha256_digest;
use crate::indexer_callbacks::register_spec;
use crate::nebula_explorer::{
    is_layout_from, lemma_generated_layout_shape, ledger_mix_input, rarity_for_score,
    rarity_score_of,
};
use crate::theme_customizer::{apply_theme_spec, theme_preset};

verus! {

/// Entry points of the Nebula Nomad game contract.
pub struct NebulaNomadContract;

impl NebulaNomadContract {
    /// Generate a 16x16 nebula map from `seed` and the current ledger.
    pub fn generate_nebula_layout(env: &soroban_sdk::Env, seed: &[u8; 32], player: &soroban_sdk::Address) -> (r: NebulaLayout)
        ensures
            exists|sequence: u32, timestamp: u64|
                is_layout_from(r, sha256_digest(ledger_mix_input(seed@, sequence, timestamp)), timestamp),
    {
        nebula_explorer::generate_nebula_layout(env, seed, player)
    }

    /// Rarity tier of a layout; its rarity score must fit in a `u32`.
    pub fn calculate_rarity_tier(env: &soroban_sdk::Env, layout: &NebulaLayout) -> (r: Rarity)
        requires
            rarity_score_of(*layout) <= u32::MAX,
        ensures
            r == rarity_for_score(rarity_score_of(*layout)),
    {
        nebula_explorer::calculate_rarity_tier(env, layout)
    }

    /// Full scan: generate the map for `seed` and the current ledger, and
    /// rate it.  The rarity of a generated map is always computable.
    pub fn scan_nebula(env: &soroban_sdk::Env, seed: &[u8; 32], player: &soroban_sdk::Address) -> (r: (NebulaLayout, Rarity))
        ensures
            exists|sequence: u32, timestamp: u64|
                is_layout_from(r.0, sha256_digest(ledger_mix_input(seed@, sequence, timestamp)), timestamp),
            r.1 == rarity_for_score(rarity_score_of(r.0)),
    {
        let layout = nebula_explorer::generate_nebula_layout(env, seed, player);
        proof {
            let (sequence, timestamp) = choose|sequence: u32, timestamp: u64|
                is_layout_from(layout, sha256_digest(ledger_mix_input(seed@, sequence, timestamp)), timestamp);
            lemma_generated_layout_shape(layout, sha256_digest(ledger_mix_input(seed@, sequence, timestamp)), timestamp);
        }
        let rarity = nebula_explorer::calculate_rarity_tier(env, &layout);
        (layout, rarity)
    }

    /// Apply a preset theme to a ship's stored theme.
    pub fn apply_theme(themes: &mut ShipThemes, ship_id: u64, theme_id: &String) -> (r: Result<(), ThemeError>)
        requires
            old(themes).wf(),
        ensures
            final(themes).wf(),
            final(themes)@ == apply_theme_spec(old(themes)@, ship_id, theme_id@).0,
            r == apply_theme_spec(old(themes)@, ship_id, theme_id@).1,
    {
        theme_customizer::apply_theme(themes, ship_id, theme_id)
    }

    /// Preview of a preset theme.
    pub fn generate_theme_preview(env: &soroban_sdk::Env, theme_id: &String) -> (r: Result<ThemePreview, ThemeError>)
        ensures
            match r {
                Ok(p) => theme_preset(theme_id@) == Some(p@),
                Err(e) => theme_preset(theme_id@).is_none() && e == ThemeError::InvalidTheme,
            },
    {
        theme_customizer::generate_theme_preview(env, theme_id)
    }

    /// Subscribe an indexer callback.
    pub fn register_indexer_callback(registry: &mut IndexerRegistry, callback_id: &String) -> (r: Result<(), IndexerError>)
        requires
            old(registry).wf(),
        ensures
            r == Ok::<(), IndexerError>(()),
            final(registry).wf(),
            final(registry)@ == register_spec(old(registry)@, callback_id@),
    {
        indexer_callbacks::register_indexer_callback(registry, callback_id)
    }
}

} // verus!
