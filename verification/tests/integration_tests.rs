use soroban_sdk::testutils::{Address as _, Ledger, LedgerInfo};
use soroban_sdk::{Address, Env};
use stellar_nebula_nomad::{
    CellType, NebulaCell, NebulaLayout, NebulaNomadContract, Rarity, GRID_SIZE, TOTAL_CELLS,
};

fn setup_env() -> (Env, Address) {
    let env = Env::default();
    env.ledger().set(LedgerInfo {
        protocol_version: env.ledger().protocol_version(),
        sequence_number: 100,
        timestamp: 1_700_000_000,
        network_id: [0u8; 32],
        base_reserve: 10,
        min_temp_entry_ttl: 100,
        min_persistent_entry_ttl: 1000,
        max_entry_ttl: 10_000,
    });
    let player = Address::generate(&env);
    (env, player)
}

// ─── generate_nebula_layout ───────────────────────────────────────────────

#[test]
fn test_generate_layout_dimensions() {
    let (env, player) = setup_env();
    let seed = [1u8; 32];
    let layout = NebulaNomadContract::generate_nebula_layout(&env, &seed, &player);
    assert_eq!(layout.width, GRID_SIZE);
    assert_eq!(layout.height, GRID_SIZE);
    assert_eq!(layout.cells.len() as u32, TOTAL_CELLS);
}

#[test]
fn test_generate_layout_has_energy() {
    let (env, player) = setup_env();
    let seed = [42u8; 32];
    let layout = NebulaNomadContract::generate_nebula_layout(&env, &seed, &player);
    assert!(layout.total_energy > 0);
}

#[test]
fn test_generate_layout_deterministic() {
    let (env, player) = setup_env();
    let seed = [7u8; 32];
    let layout1 = NebulaNomadContract::generate_nebula_layout(&env, &seed, &player);
    let layout2 = NebulaNomadContract::generate_nebula_layout(&env, &seed, &player);
    assert_eq!(layout1.total_energy, layout2.total_energy);
    assert_eq!(layout1.seed, layout2.seed);
    assert_eq!(layout1.timestamp, layout2.timestamp);
}

#[test]
fn test_different_seeds_produce_different_layouts() {
    let (env, player) = setup_env();
    let seed_a = [1u8; 32];
    let seed_b = [2u8; 32];
    let layout_a = NebulaNomadContract::generate_nebula_layout(&env, &seed_a, &player);
    let layout_b = NebulaNomadContract::generate_nebula_layout(&env, &seed_b, &player);
    assert_ne!(layout_a.total_energy, layout_b.total_energy);
}

#[test]
fn test_layout_changes_with_ledger_state() {
    let env = Env::default();
    let player = Address::generate(&env);
    let seed = [5u8; 32];

    env.ledger().set(LedgerInfo {
        protocol_version: env.ledger().protocol_version(),
        sequence_number: 100,
        timestamp: 1_000_000,
        network_id: [0u8; 32],
        base_reserve: 10,
        min_temp_entry_ttl: 100,
        min_persistent_entry_ttl: 1000,
        max_entry_ttl: 10_000,
    });
    let layout1 = NebulaNomadContract::generate_nebula_layout(&env, &seed, &player);

    env.ledger().set(LedgerInfo {
        protocol_version: env.ledger().protocol_version(),
        sequence_number: 200,
        timestamp: 2_000_000,
        network_id: [0u8; 32],
        base_reserve: 10,
        min_temp_entry_ttl: 100,
        min_persistent_entry_ttl: 1000,
        max_entry_ttl: 10_000,
    });
    let layout2 = NebulaNomadContract::generate_nebula_layout(&env, &seed, &player);

    assert_ne!(layout1.total_energy, layout2.total_energy);
}

#[test]
fn test_layout_cell_coordinates() {
    let (env, player) = setup_env();
    let seed = [10u8; 32];
    let layout = NebulaNomadContract::generate_nebula_layout(&env, &seed, &player);

    for i in 0..layout.cells.len() {
        let cell = layout.cells[i];
        assert!(cell.x < GRID_SIZE);
        assert!(cell.y < GRID_SIZE);
    }
}

#[test]
fn test_layout_records_timestamp() {
    let (env, player) = setup_env();
    let seed = [3u8; 32];
    let layout = NebulaNomadContract::generate_nebula_layout(&env, &seed, &player);
    assert_eq!(layout.timestamp, 1_700_000_000);
}

#[test]
fn test_zero_seed_works() {
    let (env, player) = setup_env();
    let seed = [0u8; 32];
    let layout = NebulaNomadContract::generate_nebula_layout(&env, &seed, &player);
    assert_eq!(layout.cells.len() as u32, TOTAL_CELLS);
}

// ─── calculate_rarity_tier ────────────────────────────────────────────────

fn make_layout(rare_count: u32, energy_per_cell: u32) -> NebulaLayout {
    let mut cells = Vec::new();
    let mut total_energy = 0u32;
    for i in 0..TOTAL_CELLS {
        let (cell_type, energy) = if i < rare_count {
            (CellType::Wormhole, 60 + energy_per_cell)
        } else {
            (CellType::Empty, energy_per_cell)
        };
        total_energy += energy;
        cells.push(NebulaCell {
            x: i % GRID_SIZE,
            y: i / GRID_SIZE,
            cell_type,
            energy,
        });
    }
    NebulaLayout {
        width: GRID_SIZE,
        height: GRID_SIZE,
        cells,
        seed: [0u8; 32],
        timestamp: 0,
        total_energy,
    }
}

#[test]
fn test_rarity_common() {
    let (env, _) = setup_env();
    let layout = make_layout(0, 0);
    let rarity = NebulaNomadContract::calculate_rarity_tier(&env, &layout);
    assert_eq!(rarity, Rarity::Common);
}

#[test]
fn test_rarity_uncommon() {
    let (env, _) = setup_env();
    // 5 rare cells × 10 = 50, energy_density ≈ 0 → score 50 → Uncommon
    let layout = make_layout(5, 0);
    let rarity = NebulaNomadContract::calculate_rarity_tier(&env, &layout);
    assert_eq!(rarity, Rarity::Uncommon);
}

#[test]
fn test_rarity_rare() {
    let (env, _) = setup_env();
    // 10 rare cells × 10 = 100 → score 100 → Rare
    let layout = make_layout(10, 0);
    let rarity = NebulaNomadContract::calculate_rarity_tier(&env, &layout);
    assert_eq!(rarity, Rarity::Rare);
}

#[test]
fn test_rarity_epic() {
    let (env, _) = setup_env();
    // 15 rare cells × 10 = 150 → score 150 → Epic
    let layout = make_layout(15, 0);
    let rarity = NebulaNomadContract::calculate_rarity_tier(&env, &layout);
    assert_eq!(rarity, Rarity::Epic);
}

#[test]
fn test_rarity_legendary() {
    let (env, _) = setup_env();
    // 20 rare cells × 10 = 200 → score 200 → Legendary
    let layout = make_layout(20, 0);
    let rarity = NebulaNomadContract::calculate_rarity_tier(&env, &layout);
    assert_eq!(rarity, Rarity::Legendary);
}

#[test]
fn test_rarity_energy_density_contributes() {
    let (env, _) = setup_env();
    // 4 rare cells × 10 = 40, energy_per_cell = 10 → density 10 → score 50
    let layout = make_layout(4, 10);
    let rarity = NebulaNomadContract::calculate_rarity_tier(&env, &layout);
    assert_eq!(rarity, Rarity::Uncommon);
}

#[test]
fn test_rarity_from_generated_layout() {
    let (env, player) = setup_env();
    let seed = [99u8; 32];
    let layout = NebulaNomadContract::generate_nebula_layout(&env, &seed, &player);
    let rarity = NebulaNomadContract::calculate_rarity_tier(&env, &layout);
    assert!(
        rarity == Rarity::Common
            || rarity == Rarity::Uncommon
            || rarity == Rarity::Rare
            || rarity == Rarity::Epic
            || rarity == Rarity::Legendary
    );
}

// ─── scan_nebula ──────────────────────────────────────────────────────────

#[test]
fn test_scan_nebula_returns_layout_and_rarity() {
    let (env, player) = setup_env();
    let seed = [50u8; 32];
    let (layout, rarity) = NebulaNomadContract::scan_nebula(&env, &seed, &player);
    assert_eq!(layout.width, GRID_SIZE);
    assert_eq!(layout.height, GRID_SIZE);
    assert_eq!(layout.cells.len() as u32, TOTAL_CELLS);
    assert!(
        rarity == Rarity::Common
            || rarity == Rarity::Uncommon
            || rarity == Rarity::Rare
            || rarity == Rarity::Epic
            || rarity == Rarity::Legendary
    );
}

#[test]
fn test_scan_nebula_consistency_with_individual_calls() {
    let (env, player) = setup_env();
    let seed = [33u8; 32];

    let layout = NebulaNomadContract::generate_nebula_layout(&env, &seed, &player);
    let rarity = NebulaNomadContract::calculate_rarity_tier(&env, &layout);

    let (scan_layout, scan_rarity) = NebulaNomadContract::scan_nebula(&env, &seed, &player);

    assert_eq!(layout.total_energy, scan_layout.total_energy);
    assert_eq!(rarity, scan_rarity);
}
