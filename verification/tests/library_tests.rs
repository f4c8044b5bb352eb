use soroban_sdk::testutils::{Address as _, Ledger, LedgerInfo};
use soroban_sdk::{Address, Env};
use stellar_nebula_nomad::{
    accept_bond, accrue_essence, apply_theme, calculate_rarity_tier, calculate_yield,
    cell_type_from_val, claim_yield, compute_combined_hash, compute_layout_hash, create_bond,
    delegate_yield, dissolve_bond, energy_for_cell, generate_nebula_layout, generate_theme_preview,
    get_bond, get_callback_status, get_essence_balance, get_theme, get_yield_delegation,
    layout_from_combined_hash, rarity_from_score, rarity_score, register_indexer_callback,
    seed_from_hash, BondError, BondLedger, BondStatus, CellType, IndexerRegistry, NebulaCell,
    NebulaLayout, Rarity, ShipThemes, StakeRecord, ThemeError, Xorshift64, GRID_SIZE,
    LEDGERS_PER_DAY, TOTAL_CELLS,
};

fn env_at(sequence_number: u32, timestamp: u64) -> Env {
    let env = Env::default();
    env.ledger().set(LedgerInfo {
        protocol_version: env.ledger().protocol_version(),
        sequence_number,
        timestamp,
        network_id: [0u8; 32],
        base_reserve: 10,
        min_temp_entry_ttl: 100,
        min_persistent_entry_ttl: 1000,
        max_entry_ttl: 10_000,
    });
    env
}

fn hex(bytes: &[u8]) -> String {
    bytes.iter().map(|b| format!("{:02x}", b)).collect()
}

// ─── generator and cell rules ─────────────────────────────────────────────

#[test]
fn xorshift_zero_seed_becomes_one() {
    assert_eq!(Xorshift64::new(0).0, 1);
    assert_eq!(Xorshift64::new(5).0, 5);
}

#[test]
fn xorshift_known_outputs() {
    let mut rng = Xorshift64::new(1);
    assert_eq!(rng.next(), 1_082_269_761);
    assert_eq!(rng.next(), 1_152_992_998_833_853_505);
    assert_eq!(rng.0, 1_152_992_998_833_853_505);
}

#[test]
fn xorshift_never_stalls_at_zero() {
    let mut rng = Xorshift64::new(0);
    for _ in 0..10_000 {
        assert_ne!(rng.next(), 0);
    }
}

#[test]
fn cell_type_roll_boundaries() {
    let cases = [
        (0u64, CellType::Empty),
        (29, CellType::Empty),
        (30, CellType::Star),
        (44, CellType::Star),
        (45, CellType::Asteroid),
        (59, CellType::Asteroid),
        (60, CellType::GasCloud),
        (74, CellType::GasCloud),
        (75, CellType::StellarDust),
        (84, CellType::StellarDust),
        (85, CellType::DarkMatter),
        (92, CellType::DarkMatter),
        (93, CellType::ExoticMatter),
        (97, CellType::ExoticMatter),
        (98, CellType::Wormhole),
        (99, CellType::Wormhole),
        (100, CellType::Empty),
        (1_234_567_898, CellType::Wormhole),
    ];
    for (val, expected) in cases {
        assert_eq!(cell_type_from_val(val), expected, "value {}", val);
    }
}

#[test]
fn cell_energy_is_base_plus_modifier() {
    assert_eq!(energy_for_cell(&CellType::Empty, 7), 7);
    assert_eq!(energy_for_cell(&CellType::Star, 10), 10);
    assert_eq!(energy_for_cell(&CellType::Asteroid, 13), 8);
    assert_eq!(energy_for_cell(&CellType::GasCloud, 0), 8);
    assert_eq!(energy_for_cell(&CellType::StellarDust, 5), 20);
    assert_eq!(energy_for_cell(&CellType::DarkMatter, 1), 26);
    assert_eq!(energy_for_cell(&CellType::ExoticMatter, 2), 42);
    assert_eq!(energy_for_cell(&CellType::Wormhole, 19), 69);
}

#[test]
fn seed_from_hash_reads_first_eight_bytes_big_endian() {
    let mut hash = [0u8; 32];
    for i in 0..8 {
        hash[i] = (i + 1) as u8;
    }
    hash[20] = 0xff;
    assert_eq!(seed_from_hash(&hash), 0x0102_0304_0506_0708);
}

#[test]
fn seed_from_hash_replaces_zero_with_one() {
    let mut hash = [0u8; 32];
    assert_eq!(seed_from_hash(&hash), 1);
    hash[8] = 9;
    assert_eq!(seed_from_hash(&hash), 1);
    hash[7] = 1;
    assert_eq!(seed_from_hash(&hash), 1);
    hash[7] = 2;
    assert_eq!(seed_from_hash(&hash), 2);
}

// ─── hashing through the host ─────────────────────────────────────────────

#[test]
fn combined_hash_is_sha256_of_seed_sequence_and_timestamp() {
    let env = env_at(0, 0);
    let zero = compute_combined_hash(&env, &[0u8; 32], 0, 0);
    assert_eq!(
        hex(&zero),
        "85759b3811ff7dc47b03792ac85317be51431a3f9e01dcafce317ed736a391b0"
    );
    let mixed = compute_combined_hash(&env, &[1u8; 32], 100, 1_700_000_000);
    assert_eq!(
        hex(&mixed),
        "94b51ff69f7f55d3668ee2ba1b480a62d8fccf10cc28304f052313bd2a76a873"
    );
}

#[test]
fn generated_layout_uses_the_current_ledger() {
    let env = env_at(100, 1_700_000_000);
    let player = Address::generate(&env);
    let seed = [1u8; 32];
    let layout = generate_nebula_layout(&env, &seed, &player);
    let combined = compute_combined_hash(&env, &seed, 100, 1_700_000_000);
    assert_eq!(layout.seed, combined);
    assert_eq!(layout, layout_from_combined_hash(&combined, 1_700_000_000));
}

#[test]
fn layout_hash_is_sha256_of_layout_fields() {
    let env = env_at(0, 0);
    let layout = uniform_layout(0, 0);
    assert_eq!(
        hex(&compute_layout_hash(&env, &layout)),
        "a9f2ed0b7b5ea54b01cbed43112fe5971495a264a48396cf5afcac85e7dd6340"
    );
}

// ─── layout construction ──────────────────────────────────────────────────

fn reference_layout(combined: &[u8; 32], timestamp: u64) -> NebulaLayout {
    let mut state = u64::from_be_bytes(combined[0..8].try_into().unwrap());
    if state == 0 {
        state = 1;
    }
    let mut step = || {
        state ^= state << 13;
        state ^= state >> 7;
        state ^= state << 17;
        state
    };
    let bases = [0u32, 10, 5, 8, 15, 25, 40, 60];
    let mut cells = Vec::new();
    let mut total = 0;
    for y in 0..16u32 {
        for x in 0..16u32 {
            let roll = step() % 100;
            let modifier = step() % 10;
            let (cell_type, base) = match roll {
                0..=29 => (CellType::Empty, bases[0]),
                30..=44 => (CellType::Star, bases[1]),
                45..=59 => (CellType::Asteroid, bases[2]),
                60..=74 => (CellType::GasCloud, bases[3]),
                75..=84 => (CellType::StellarDust, bases[4]),
                85..=92 => (CellType::DarkMatter, bases[5]),
                93..=97 => (CellType::ExoticMatter, bases[6]),
                _ => (CellType::Wormhole, bases[7]),
            };
            let energy = base + modifier as u32;
            total += energy;
            cells.push(NebulaCell { x, y, cell_type, energy });
        }
    }
    NebulaLayout {
        width: 16,
        height: 16,
        cells,
        seed: *combined,
        timestamp,
        total_energy: total,
    }
}

#[test]
fn layout_from_hash_matches_reference_generator() {
    for fill in [0u8, 1, 7, 200] {
        let mut combined = [fill; 32];
        combined[3] = 0x5a;
        let layout = layout_from_combined_hash(&combined, 42);
        assert_eq!(layout, reference_layout(&combined, 42));
    }
}

#[test]
fn layout_cells_are_row_major_and_sum_to_total() {
    let layout = layout_from_combined_hash(&[9u8; 32], 7);
    assert_eq!(layout.cells.len() as u32, TOTAL_CELLS);
    let mut sum = 0;
    for (i, cell) in layout.cells.iter().enumerate() {
        assert_eq!(cell.x, i as u32 % GRID_SIZE);
        assert_eq!(cell.y, i as u32 / GRID_SIZE);
        assert!(cell.energy <= 69);
        sum += cell.energy;
    }
    assert_eq!(sum, layout.total_energy);
    assert_eq!(layout.timestamp, 7);
}

// ─── rarity ───────────────────────────────────────────────────────────────

fn uniform_layout(rare: u32, energy: u32) -> NebulaLayout {
    let mut cells = Vec::new();
    for i in 0..TOTAL_CELLS {
        let cell_type = if i < rare { CellType::DarkMatter } else { CellType::Star };
        cells.push(NebulaCell { x: i % 16, y: i / 16, cell_type, energy });
    }
    NebulaLayout {
        width: 16,
        height: 16,
        cells,
        seed: [0u8; 32],
        timestamp: 0,
        total_energy: energy * TOTAL_CELLS,
    }
}

#[test]
fn rarity_score_counts_rare_cells_and_density() {
    assert_eq!(rarity_score(&uniform_layout(0, 0)), Some(0));
    assert_eq!(rarity_score(&uniform_layout(3, 7)), Some(37));
    let mut mixed = uniform_layout(0, 0);
    mixed.cells[0].cell_type = CellType::ExoticMatter;
    mixed.cells[1].cell_type = CellType::Wormhole;
    mixed.cells[2].cell_type = CellType::StellarDust;
    mixed.total_energy = 511;
    assert_eq!(rarity_score(&mixed), Some(21));
}

#[test]
fn rarity_tier_boundaries() {
    assert_eq!(rarity_from_score(0), Rarity::Common);
    assert_eq!(rarity_from_score(49), Rarity::Common);
    assert_eq!(rarity_from_score(50), Rarity::Uncommon);
    assert_eq!(rarity_from_score(99), Rarity::Uncommon);
    assert_eq!(rarity_from_score(100), Rarity::Rare);
    assert_eq!(rarity_from_score(149), Rarity::Rare);
    assert_eq!(rarity_from_score(150), Rarity::Epic);
    assert_eq!(rarity_from_score(199), Rarity::Epic);
    assert_eq!(rarity_from_score(200), Rarity::Legendary);
    assert_eq!(rarity_from_score(u32::MAX), Rarity::Legendary);
}

#[test]
fn rarity_tier_uses_score() {
    let env = env_at(0, 0);
    assert_eq!(calculate_rarity_tier(&env, &uniform_layout(4, 9)), Rarity::Common);
    assert_eq!(calculate_rarity_tier(&env, &uniform_layout(4, 10)), Rarity::Uncommon);
    assert_eq!(calculate_rarity_tier(&env, &uniform_layout(19, 10)), Rarity::Legendary);
}

// ─── themes ───────────────────────────────────────────────────────────────

#[test]
fn theme_previews_of_presets() {
    let env = env_at(0, 0);
    let cosmic = generate_theme_preview(&env, &"nebula1".to_string()).unwrap();
    assert_eq!(cosmic.name, "Cosmic");
    assert_eq!(cosmic.colors, vec!["FF00FF".to_string(), "00FFFF".to_string()]);
    assert_eq!(cosmic.particles, "Stardust");
    let meteor = generate_theme_preview(&env, &"nebula10".to_string()).unwrap();
    assert_eq!(meteor.name, "Meteor");
    assert_eq!(meteor.colors, vec!["FFD700".to_string(), "8B4513".to_string()]);
    assert_eq!(meteor.particles, "Trails");
    let black_hole = generate_theme_preview(&env, &"nebula7".to_string()).unwrap();
    assert_eq!(black_hole.name, "BlackHole");
    assert_eq!(black_hole.particles, "snglrty");
    for i in 1..=10 {
        assert!(generate_theme_preview(&env, &format!("nebula{}", i)).is_ok());
    }
}

#[test]
fn unknown_theme_is_invalid() {
    let env = env_at(0, 0);
    for id in ["nebula11", "nebula0", "", "Nebula1", "nebula1 "] {
        assert_eq!(
            generate_theme_preview(&env, &id.to_string()),
            Err(ThemeError::InvalidTheme)
        );
    }
}

#[test]
fn applied_theme_reads_back() {
    let mut themes = ShipThemes::new();
    assert_eq!(get_theme(&themes, 1), None);
    assert_eq!(apply_theme(&mut themes, 1, &"nebula3".to_string()), Ok(()));
    assert_eq!(apply_theme(&mut themes, 2, &"nebula4".to_string()), Ok(()));
    assert_eq!(get_theme(&themes, 1), Some("nebula3".to_string()));
    assert_eq!(apply_theme(&mut themes, 1, &"nebula9".to_string()), Ok(()));
    assert_eq!(get_theme(&themes, 1), Some("nebula9".to_string()));
    assert_eq!(get_theme(&themes, 2), Some("nebula4".to_string()));
    assert_eq!(themes.entries.len(), 2);
}

#[test]
fn invalid_theme_changes_nothing() {
    let mut themes = ShipThemes::new();
    apply_theme(&mut themes, 5, &"nebula2".to_string()).unwrap();
    assert_eq!(
        apply_theme(&mut themes, 5, &"plasma".to_string()),
        Err(ThemeError::InvalidTheme)
    );
    assert_eq!(get_theme(&themes, 5), Some("nebula2".to_string()));
    assert_eq!(
        apply_theme(&mut themes, 6, &"plasma".to_string()),
        Err(ThemeError::InvalidTheme)
    );
    assert_eq!(get_theme(&themes, 6), None);
}

// ─── indexer callbacks ────────────────────────────────────────────────────

#[test]
fn registered_callback_reads_back_active() {
    let mut registry = IndexerRegistry::new();
    let id = "dash".to_string();
    assert!(get_callback_status(&registry, &id).is_none());
    assert_eq!(register_indexer_callback(&mut registry, &id), Ok(()));
    let stored = get_callback_status(&registry, &id).unwrap();
    assert_eq!(stored.id, "dash");
    assert_eq!(stored.status, "Active");
    assert!(get_callback_status(&registry, &"other".to_string()).is_none());
    assert_eq!(register_indexer_callback(&mut registry, &id), Ok(()));
    assert_eq!(registry.callbacks.entries.len(), 1);
}

// ─── nomad bonding ────────────────────────────────────────────────────────

fn players() -> (String, String, String) {
    ("GALICE".to_string(), "GBOB".to_string(), "GCAROL".to_string())
}

fn active_bond(ledger: &mut BondLedger, a: &String, b: &String) -> u64 {
    let bond = create_bond(ledger, a, 7, b, 1_000).unwrap();
    accept_bond(ledger, b, bond.bond_id).unwrap();
    bond.bond_id
}

#[test]
fn bonds_get_sequential_ids_and_start_pending() {
    let (a, b, c) = players();
    let mut ledger = BondLedger::new();
    let first = create_bond(&mut ledger, &a, 3, &b, 500).unwrap();
    let second = create_bond(&mut ledger, &c, 4, &a, 600).unwrap();
    assert_eq!(first.bond_id, 1);
    assert_eq!(second.bond_id, 2);
    assert_eq!(first.status, BondStatus::Pending);
    assert_eq!(first.initiator, a);
    assert_eq!(first.partner, b);
    assert_eq!(first.ship_id, 3);
    assert_eq!(first.created_at, 500);
    assert_eq!(get_bond(&ledger, 1), Ok(first));
    assert_eq!(get_bond(&ledger, 2), Ok(second));
    assert_eq!(ledger.bond_counter, 2);
}

#[test]
fn self_bond_is_refused() {
    let (a, _, _) = players();
    let mut ledger = BondLedger::new();
    assert_eq!(create_bond(&mut ledger, &a, 1, &a, 0), Err(BondError::SelfBond));
    assert_eq!(ledger.bond_counter, 0);
}

#[test]
fn only_the_partner_accepts_a_pending_bond() {
    let (a, b, c) = players();
    let mut ledger = BondLedger::new();
    let bond = create_bond(&mut ledger, &a, 1, &b, 0).unwrap();
    assert_eq!(accept_bond(&mut ledger, &c, 1), Err(BondError::NotDesignatedPartner));
    assert_eq!(accept_bond(&mut ledger, &a, 1), Err(BondError::NotDesignatedPartner));
    assert_eq!(accept_bond(&mut ledger, &b, 2), Err(BondError::BondNotFound));
    assert_eq!(accept_bond(&mut ledger, &b, 0), Err(BondError::BondNotFound));
    let accepted = accept_bond(&mut ledger, &b, bond.bond_id).unwrap();
    assert_eq!(accepted.status, BondStatus::Active);
    assert_eq!(get_bond(&ledger, 1).unwrap().status, BondStatus::Active);
    assert_eq!(accept_bond(&mut ledger, &b, 1), Err(BondError::BondNotPending));
}

#[test]
fn delegation_checks_in_order() {
    let (a, b, c) = players();
    let mut ledger = BondLedger::new();
    create_bond(&mut ledger, &a, 1, &b, 0).unwrap();
    assert_eq!(delegate_yield(&mut ledger, &a, 1, 0), Err(BondError::InvalidPercentage));
    assert_eq!(delegate_yield(&mut ledger, &a, 1, 101), Err(BondError::InvalidPercentage));
    assert_eq!(delegate_yield(&mut ledger, &a, 9, 50), Err(BondError::BondNotFound));
    assert_eq!(delegate_yield(&mut ledger, &a, 1, 50), Err(BondError::BondNotActive));
    accept_bond(&mut ledger, &b, 1).unwrap();
    assert_eq!(delegate_yield(&mut ledger, &c, 1, 50), Err(BondError::NotBondMember));
    let d = delegate_yield(&mut ledger, &b, 1, 100).unwrap();
    assert_eq!(d.delegator, b);
    assert_eq!(d.beneficiary, a);
    assert_eq!(d.percentage, 100);
    assert_eq!(d.total_yielded, 0);
    assert_eq!(get_yield_delegation(&ledger, 1), Ok(d));
}

#[test]
fn claim_moves_the_delegated_share() {
    let (a, b, _) = players();
    let mut ledger = BondLedger::new();
    let id = active_bond(&mut ledger, &a, &b);
    delegate_yield(&mut ledger, &a, id, 25).unwrap();
    accrue_essence(&mut ledger, &a, 1_000).unwrap();
    accrue_essence(&mut ledger, &b, 10).unwrap();
    assert_eq!(claim_yield(&mut ledger, &b, id), Ok(250));
    assert_eq!(get_essence_balance(&ledger, &a), 750);
    assert_eq!(get_essence_balance(&ledger, &b), 260);
    assert_eq!(get_yield_delegation(&ledger, id).unwrap().total_yielded, 250);
    assert_eq!(claim_yield(&mut ledger, &b, id), Ok(187));
    assert_eq!(get_essence_balance(&ledger, &a), 563);
    assert_eq!(get_essence_balance(&ledger, &b), 447);
    assert_eq!(get_yield_delegation(&ledger, id).unwrap().total_yielded, 437);
}

#[test]
fn claim_refusals_and_empty_claims() {
    let (a, b, c) = players();
    let mut ledger = BondLedger::new();
    assert_eq!(claim_yield(&mut ledger, &b, 1), Err(BondError::BondNotFound));
    create_bond(&mut ledger, &a, 1, &b, 0).unwrap();
    assert_eq!(claim_yield(&mut ledger, &b, 1), Err(BondError::BondNotActive));
    accept_bond(&mut ledger, &b, 1).unwrap();
    assert_eq!(claim_yield(&mut ledger, &b, 1), Err(BondError::NoDelegation));
    delegate_yield(&mut ledger, &a, 1, 10).unwrap();
    assert_eq!(claim_yield(&mut ledger, &c, 1), Err(BondError::NotBeneficiary));
    assert_eq!(claim_yield(&mut ledger, &a, 1), Err(BondError::NotBeneficiary));
    // Empty delegator balance: nothing moves.
    assert_eq!(claim_yield(&mut ledger, &b, 1), Ok(0));
    // 10% of 9 rounds down to zero: nothing moves.
    accrue_essence(&mut ledger, &a, 9).unwrap();
    assert_eq!(claim_yield(&mut ledger, &b, 1), Ok(0));
    assert_eq!(get_essence_balance(&ledger, &a), 9);
    assert_eq!(get_essence_balance(&ledger, &b), 0);
    assert_eq!(get_yield_delegation(&ledger, 1).unwrap().total_yielded, 0);
}

#[test]
fn claim_overflow_is_refused() {
    let (a, b, _) = players();
    let mut ledger = BondLedger::new();
    let id = active_bond(&mut ledger, &a, &b);
    delegate_yield(&mut ledger, &a, id, 2).unwrap();
    accrue_essence(&mut ledger, &a, u64::MAX).unwrap();
    assert_eq!(claim_yield(&mut ledger, &b, id), Err(BondError::Overflow));
    assert_eq!(get_essence_balance(&ledger, &a), u64::MAX);
    assert_eq!(get_essence_balance(&ledger, &b), 0);
}

#[test]
fn claim_credit_overflow_is_refused() {
    let (a, b, _) = players();
    let mut ledger = BondLedger::new();
    let id = active_bond(&mut ledger, &a, &b);
    delegate_yield(&mut ledger, &a, id, 100).unwrap();
    accrue_essence(&mut ledger, &a, 10).unwrap();
    accrue_essence(&mut ledger, &b, u64::MAX - 5).unwrap();
    assert_eq!(claim_yield(&mut ledger, &b, id), Err(BondError::Overflow));
    assert_eq!(get_essence_balance(&ledger, &a), 10);
}

#[test]
fn accrue_adds_and_refuses_overflow() {
    let (a, _, c) = players();
    let mut ledger = BondLedger::new();
    assert_eq!(get_essence_balance(&ledger, &a), 0);
    accrue_essence(&mut ledger, &a, 40).unwrap();
    accrue_essence(&mut ledger, &a, 2).unwrap();
    assert_eq!(get_essence_balance(&ledger, &a), 42);
    assert_eq!(get_essence_balance(&ledger, &c), 0);
    assert_eq!(accrue_essence(&mut ledger, &a, u64::MAX), Err(BondError::Overflow));
    assert_eq!(get_essence_balance(&ledger, &a), 42);
}

#[test]
fn dissolved_bond_yields_nothing() {
    let (a, b, c) = players();
    let mut ledger = BondLedger::new();
    let id = active_bond(&mut ledger, &a, &b);
    delegate_yield(&mut ledger, &a, id, 50).unwrap();
    accrue_essence(&mut ledger, &a, 100).unwrap();
    assert_eq!(dissolve_bond(&mut ledger, &c, id), Err(BondError::NotBondParty));
    assert_eq!(dissolve_bond(&mut ledger, &a, 5), Err(BondError::BondNotFound));
    let dissolved = dissolve_bond(&mut ledger, &b, id).unwrap();
    assert_eq!(dissolved.status, BondStatus::Dissolved);
    assert_eq!(dissolve_bond(&mut ledger, &a, id), Err(BondError::AlreadyDissolved));
    assert_eq!(claim_yield(&mut ledger, &b, id), Err(BondError::BondNotActive));
    assert_eq!(accept_bond(&mut ledger, &b, id), Err(BondError::BondNotPending));
    assert_eq!(get_essence_balance(&ledger, &a), 100);
}

#[test]
fn pending_bond_can_be_dissolved_by_initiator() {
    let (a, b, _) = players();
    let mut ledger = BondLedger::new();
    create_bond(&mut ledger, &a, 1, &b, 0).unwrap();
    assert_eq!(dissolve_bond(&mut ledger, &a, 1).unwrap().status, BondStatus::Dissolved);
}

#[test]
fn lookups_of_missing_records() {
    let ledger = BondLedger::new();
    assert_eq!(get_bond(&ledger, 1), Err(BondError::BondNotFound));
    assert_eq!(get_yield_delegation(&ledger, 1), Err(BondError::NoDelegation));
}

// ─── staking yield ────────────────────────────────────────────────────────

fn stake(amount: i128) -> StakeRecord {
    StakeRecord { amount, last_claim_ledger: 1_000 }
}

#[test]
fn yield_worked_examples() {
    let day = LEDGERS_PER_DAY;
    let at = |days: u32| 1_000 + day * days;
    assert_eq!(calculate_yield(&stake(100), at(1), 500), 0);
    assert_eq!(calculate_yield(&stake(100), at(30), 500), 0);
    assert_eq!(calculate_yield(&stake(100), at(73), 500), 1);
    assert_eq!(calculate_yield(&stake(100), at(146), 500), 2);
    assert_eq!(calculate_yield(&stake(100), at(365), 500), 5);
    assert_eq!(calculate_yield(&stake(100), at(730), 500), 10);
    assert_eq!(calculate_yield(&stake(1_000), at(30), 1_000), 8);
    assert_eq!(calculate_yield(&stake(1_000), at(90), 1_000), 24);
    assert_eq!(calculate_yield(&stake(1_000), at(365), 1_000), 100);
    assert_eq!(calculate_yield(&stake(50), at(365), 500), 2);
}

#[test]
fn yield_is_zero_without_elapsed_ledgers() {
    assert_eq!(calculate_yield(&stake(100), 1_000, 500), 0);
    assert_eq!(calculate_yield(&stake(100), 10, 500), 0);
}

#[test]
fn split_claims_do_not_gain() {
    let day = LEDGERS_PER_DAY;
    let first = calculate_yield(&stake(100), 1_000 + day * 182, 500);
    let second = calculate_yield(
        &StakeRecord { amount: 100, last_claim_ledger: 1_000 + day * 182 },
        1_000 + day * 365,
        500,
    );
    let whole = calculate_yield(&stake(100), 1_000 + day * 365, 500);
    assert_eq!((first, second, whole), (2, 2, 5));
    assert!(first + second <= whole && whole <= first + second + 1);
}

#[test]
fn negative_amounts_round_towards_zero() {
    assert_eq!(calculate_yield(&stake(-100), 1_000 + LEDGERS_PER_DAY * 73, 500), -1);
}

#[test]
fn stored_state_checks() {
    let (a, b, _) = players();
    let mut ledger = BondLedger::new();
    let id = active_bond(&mut ledger, &a, &b);
    delegate_yield(&mut ledger, &a, id, 30).unwrap();
    accrue_essence(&mut ledger, &a, 5).unwrap();
    assert!(ledger.is_well_formed());

    let mut tampered = BondLedger::new();
    create_bond(&mut tampered, &a, 1, &b, 0).unwrap();
    tampered.bond_counter = 3;
    assert!(!tampered.is_well_formed());

    let mut self_bonded = BondLedger::new();
    create_bond(&mut self_bonded, &a, 1, &b, 0).unwrap();
    self_bonded.bonds[0].partner = a.clone();
    assert!(!self_bonded.is_well_formed());

    let mut early_delegation = BondLedger::new();
    create_bond(&mut early_delegation, &a, 1, &b, 0).unwrap();
    early_delegation.delegations[0] = Some(stellar_nebula_nomad::YieldDelegation {
        bond_id: 1,
        delegator: a.clone(),
        beneficiary: b.clone(),
        percentage: 10,
        total_yielded: 0,
    });
    assert!(!early_delegation.is_well_formed());

    let mut twice = ledger;
    let copy = twice.essence.entries[0].clone();
    twice.essence.entries.push(copy);
    assert!(!twice.is_well_formed());

    let mut themes = ShipThemes::new();
    apply_theme(&mut themes, 1, &"nebula1".to_string()).unwrap();
    assert!(themes.is_well_formed());
    let entry = themes.entries[0].clone();
    themes.entries.push(entry);
    assert!(!themes.is_well_formed());
}
