use vstd::prelude::*;

use crate::host::{host_sha256, ledger_sequence, ledger_timestamp, sha256_digest};

verus! {

/// Width and height of a nebula map.
pub const GRID_SIZE: u32 = 16;

/// Number of cells in a nebula map.
pub const TOTAL_CELLS: u32 = 256;

/// Kind of a nebula cell.
#[derive(Clone, Copy, Debug, PartialEq, Eq, Structural)]
pub enum CellType {
    Empty,
    Star,
    Asteroid,
    GasCloud,
    DarkMatter,
    ExoticMatter,
    StellarDust,
    Wormhole,
}

/// One cell of a nebula map.
#[derive(Clone, Copy, Debug, PartialEq, Eq, Structural)]
pub struct NebulaCell {
    pub x: u32,
    pub y: u32,
    pub cell_type: CellType,
    pub energy: u32,
}

/// Rarity tier of a nebula map.
#[derive(Clone, Copy, Debug, PartialEq, Eq, Structural)]
pub enum Rarity {
    Common,
    Uncommon,
    Rare,
    Epic,
    Legendary,
}

/// A procedurally generated nebula map.
#[derive(Clone, Debug, PartialEq, Eq)]
pub struct NebulaLayout {
    pub width: u32,
    pub height: u32,
    pub cells: Vec<NebulaCell>,
    /// The ledger-mixed hash the map was generated from.
    pub seed: [u8; 32],
    pub timestamp: u64,
    pub total_energy: u32,
}

/// Cell type for a roll `r` in `0..100`: Empty 30%, Star 15%, Asteroid 15%,
/// GasCloud 15%, StellarDust 10%, DarkMatter 8%, ExoticMatter 5%, Wormhole 2%.
pub open spec fn cell_type_for_roll(r: int) -> CellType {
    if r <= 29 {
        CellType::Empty
    } else if r <= 44 {
        CellType::Star
    } else if r <= 59 {
        CellType::Asteroid
    } else if r <= 74 {
        CellType::GasCloud
    } else if r <= 84 {
        CellType::StellarDust
    } else if r <= 92 {
        CellType::DarkMatter
    } else if r <= 97 {
        CellType::ExoticMatter
    } else {
        CellType::Wormhole
    }
}

/// Base energy of each cell type.
pub open spec fn base_energy(t: CellType) -> int {
    match t {
        CellType::Empty => 0,
        CellType::Star => 10,
        CellType::Asteroid => 5,
        CellType::GasCloud => 8,
        CellType::StellarDust => 15,
        CellType::DarkMatter => 25,
        CellType::ExoticMatter => 40,
        CellType::Wormhole => 60,
    }
}

/// Energy of a cell of type `t` whose random modifier is `val`.
pub open spec fn cell_energy(t: CellType, val: u64) -> int {
    base_energy(t) + val % 10
}

/// Map a random value to a cell type with the weighted distribution of
/// `cell_type_for_roll`.
pub fn cell_type_from_val(val: u64) -> (r: CellType)
    ensures
        r == cell_type_for_roll((val % 100) as int),
{
    let roll = val % 100;
    if roll <= 29 {
        CellType::Empty
    } else if roll <= 44 {
        CellType::Star
    } else if roll <= 59 {
        CellType::Asteroid
    } else if roll <= 74 {
        CellType::GasCloud
    } else if roll <= 84 {
        CellType::StellarDust
    } else if roll <= 92 {
        CellType::DarkMatter
    } else if roll <= 97 {
        CellType::ExoticMatter
    } else {
        CellType::Wormhole
    }
}

/// Energy of a cell: the base energy of its type plus `val % 10`.
pub fn energy_for_cell(cell_type: &CellType, val: u64) -> (r: u32)
    ensures
        r == cell_energy(*cell_type, val),
        r <= 69,
{
    let base: u32 = match cell_type {
        CellType::Empty => 0,
        CellType::Star => 10,
        CellType::Asteroid => 5,
        CellType::GasCloud => 8,
        CellType::StellarDust => 15,
        CellType::DarkMatter => 25,
        CellType::ExoticMatter => 40,
        CellType::Wormhole => 60,
    };
    base + (val % 10) as u32
}

/// One step of the xorshift64 generator (shifts 13, 7, 17).
pub open spec fn xorshift_step(s: u64) -> u64 {
    let a = s ^ (s << 13u64);
    let b = a ^ (a >> 7u64);
    b ^ (b << 17u64)
}

/// The generator state after `k` steps from `start`.
pub open spec fn prng_state(start: u64, k: nat) -> u64
    decreases k,
{
    if k == 0 {
        start
    } else {
        xorshift_step(prng_state(start, (k - 1) as nat))
    }
}

/// Deterministic xorshift64 pseudo-random generator.
pub struct Xorshift64(pub u64);

impl Xorshift64 {
    /// A generator seeded with `seed`; a zero seed is replaced by one,
    /// since zero is a fixed point of xorshift.
    pub fn new(seed: u64) -> (r: Self)
        ensures
            r.0 == (if seed == 0 { 1 } else { seed }),
    {
        Self(if seed == 0 { 1 } else { seed })
    }

    /// Advance the state by one xorshift step and return the new state.
    pub fn next(&mut self) -> (r: u64)
        ensures
            final(self).0 == xorshift_step(old(self).0),
            r == final(self).0,
            old(self).0 != 0 ==> final(self).0 != 0,
    {
        proof {
            if self.0 != 0 {
                lemma_xorshift_nonzero(self.0);
            }
        }
        self.0 ^= self.0 << 13;
        self.0 ^= self.0 >> 7;
        self.0 ^= self.0 << 17;
        self.0
    }
}


/// Initial generator state for a seed: zero is replaced by one.
pub open spec fn initial_state(seed: u64) -> u64 {
    if seed == 0 { 1 } else { seed }
}

/// `256^n`.
pub open spec fn pow256(n: nat) -> nat
    decreases n,
{
    if n == 0 { 1 } else { 256 * pow256((n - 1) as nat) }
}

/// The big-endian value of a byte sequence.
pub open spec fn be_value(s: Seq<u8>) -> nat
    decreases s.len(),
{
    if s.len() == 0 {
        0
    } else {
        be_value(s.drop_last()) * 256 + s.last() as nat
    }
}

/// The generator seed drawn from a hash: its first eight bytes read
/// big-endian, with zero replaced by one.
pub open spec fn prng_seed_of(hash: Seq<u8>) -> u64 {
    let v = be_value(hash.take(8));
    if v == 0 { 1 } else { v as u64 }
}

/// Big-endian bytes of a `u32`.
pub open spec fn be_bytes_u32(v: u32) -> Seq<u8> {
    seq![(v >> 24u32) as u8, (v >> 16u32) as u8, (v >> 8u32) as u8, v as u8]
}

/// Big-endian bytes of a `u64`.
pub open spec fn be_bytes_u64(v: u64) -> Seq<u8> {
    seq![
        (v >> 56u64) as u8,
        (v >> 48u64) as u8,
        (v >> 40u64) as u8,
        (v >> 32u64) as u8,
        (v >> 24u64) as u8,
        (v >> 16u64) as u8,
        (v >> 8u64) as u8,
        v as u8,
    ]
}

/// The bytes hashed to mix a player's seed with the ledger: the seed, then
/// the ledger sequence and timestamp, big-endian.
pub open spec fn ledger_mix_input(seed: Seq<u8>, sequence: u32, timestamp: u64) -> Seq<u8> {
    seed + be_bytes_u32(sequence) + be_bytes_u64(timestamp)
}

/// The `i`-th cell (row-major) of the map generated from generator state
/// `start`: its type comes from the generator's `2i+1`-th output and its
/// energy modifier from the `2i+2`-th.
pub open spec fn spec_cell(start: u64, i: int) -> NebulaCell {
    let t = cell_type_for_roll((prng_state(start, (2 * i + 1) as nat) % 100) as int);
    NebulaCell {
        x: (i % 16) as u32,
        y: (i / 16) as u32,
        cell_type: t,
        energy: cell_energy(t, prng_state(start, (2 * i + 2) as nat)) as u32,
    }
}

/// The 256 cells of the map generated from generator state `start`.
pub open spec fn spec_cells(start: u64) -> Seq<NebulaCell> {
    Seq::new(256, |i: int| spec_cell(start, i))
}

/// Sum of the energies of a sequence of cells.
pub open spec fn energy_sum(cells: Seq<NebulaCell>) -> int
    decreases cells.len(),
{
    if cells.len() == 0 {
        0
    } else {
        energy_sum(cells.drop_last()) + cells.last().energy
    }
}

/// `layout` is the map generated from the ledger-mixed hash `combined` at
/// ledger time `timestamp`.
pub open spec fn is_layout_from(layout: NebulaLayout, combined: Seq<u8>, timestamp: u64) -> bool {
    &&& layout.width == GRID_SIZE
    &&& layout.height == GRID_SIZE
    &&& layout.seed@ == combined
    &&& layout.timestamp == timestamp
    &&& layout.cells@ == spec_cells(initial_state(prng_seed_of(combined)))
    &&& layout.total_energy == energy_sum(layout.cells@)
}

/// Cells that count towards rarity.
pub open spec fn is_rare(t: CellType) -> bool {
    t == CellType::DarkMatter || t == CellType::ExoticMatter || t == CellType::Wormhole
}

/// Number of rare cells.
pub open spec fn rare_count(cells: Seq<NebulaCell>) -> nat
    decreases cells.len(),
{
    if cells.len() == 0 {
        0
    } else {
        rare_count(cells.drop_last()) + if is_rare(cells.last().cell_type) { 1nat } else { 0nat }
    }
}

/// Rarity score: ten points per rare cell plus the average energy per cell
/// of a full map (rounded down).
pub open spec fn rarity_score_of(layout: NebulaLayout) -> int {
    rare_count(layout.cells@) * 10 + layout.total_energy / TOTAL_CELLS
}

/// Tier for a score: Common below 50, Uncommon below 100, Rare below 150,
/// Epic below 200, Legendary from 200.
pub open spec fn rarity_for_score(score: int) -> Rarity {
    if score <= 49 {
        Rarity::Common
    } else if score <= 99 {
        Rarity::Uncommon
    } else if score <= 149 {
        Rarity::Rare
    } else if score <= 199 {
        Rarity::Epic
    } else {
        Rarity::Legendary
    }
}

/// Position of a tier from Common (0) to Legendary (4).
pub open spec fn rarity_rank(r: Rarity) -> int {
    match r {
        Rarity::Common => 0,
        Rarity::Uncommon => 1,
        Rarity::Rare => 2,
        Rarity::Epic => 3,
        Rarity::Legendary => 4,
    }
}

/// The bytes hashed to fingerprint a layout: its seed, width, height, total
/// energy, timestamp and cell count, integers big-endian.
pub open spec fn layout_hash_input(layout: NebulaLayout) -> Seq<u8> {
    layout.seed@ + be_bytes_u32(layout.width) + be_bytes_u32(layout.height) + be_bytes_u32(
        layout.total_energy,
    ) + be_bytes_u64(layout.timestamp) + be_bytes_u32(layout.cells@.len() as u32)
}

proof fn lemma_shift_or_byte(v: u64, b: u64)
    requires
        v < 0x100000000000000,
        b < 256,
    ensures
        (v << 8u64) | b == v * 256 + b,
{
    assert((v << 8u64) | b == v * 256 + b) by (bit_vector)
        requires
            v < 0x100000000000000,
            b < 256,
    ;
}

proof fn lemma_pow256_bound(n: nat)
    requires
        n <= 7,
    ensures
        pow256(n) <= 0x100000000000000,
    decreases n,
{
    if n < 7 {
        lemma_pow256_mono(n);
    }
    reveal_with_fuel(pow256, 8);
}

proof fn lemma_pow256_mono(n: nat)
    requires
        n < 7,
    ensures
        pow256(n) <= pow256(7),
    decreases 7 - n,
{
    if n < 6 {
        lemma_pow256_mono(n + 1);
    }
}

fn push_u32_be(out: &mut Vec<u8>, v: u32)
    ensures
        final(out)@ == old(out)@ + be_bytes_u32(v),
{
    out.push((v >> 24) as u8);
    out.push((v >> 16) as u8);
    out.push((v >> 8) as u8);
    out.push(v as u8);
    assert(final(out)@ =~= old(out)@ + be_bytes_u32(v));
}

fn push_u64_be(out: &mut Vec<u8>, v: u64)
    ensures
        final(out)@ == old(out)@ + be_bytes_u64(v),
{
    out.push((v >> 56) as u8);
    out.push((v >> 48) as u8);
    out.push((v >> 40) as u8);
    out.push((v >> 32) as u8);
    out.push((v >> 24) as u8);
    out.push((v >> 16) as u8);
    out.push((v >> 8) as u8);
    out.push(v as u8);
    assert(final(out)@ =~= old(out)@ + be_bytes_u64(v));
}

/// Mix a player's seed with the ledger: the host's SHA-256 of the seed
/// followed by the ledger sequence and timestamp, big-endian.
pub fn compute_combined_hash(env: &soroban_sdk::Env, seed: &[u8; 32], sequence: u32, timestamp: u64) -> (r: [u8; 32])
    ensures
        r@ == sha256_digest(ledger_mix_input(seed@, sequence, timestamp)),
{
    let mut input: Vec<u8> = Vec::new();
    let mut i: usize = 0;
    while i < 32
        invariant
            i <= 32,
            input@ == seed@.take(i as int),
        decreases 32 - i,
    {
        input.push(seed[i]);
        i = i + 1;
        assert(input@ =~= seed@.take(i as int));
    }
    assert(seed@.take(32) =~= seed@);
    push_u32_be(&mut input, sequence);
    push_u64_be(&mut input, timestamp);
    host_sha256(env, &input)
}

/// The generator seed drawn from a hash: its first eight bytes big-endian,
/// with zero replaced by one.
pub fn seed_from_hash(hash: &[u8; 32]) -> (r: u64)
    ensures
        r == prng_seed_of(hash@),
        r != 0,
{
    let mut val: u64 = 0;
    let mut i: usize = 0;
    while i < 8
        invariant
            i <= 8,
            val == be_value(hash@.take(i as int)),
            be_value(hash@.take(i as int)) < pow256(i as nat),
        decreases 8 - i,
    {
        let b = hash[i] as u64;
        proof {
            lemma_pow256_bound(i as nat);
            lemma_shift_or_byte(val, b);
            assert(hash@.take(i + 1).drop_last() =~= hash@.take(i as int));
        }
        val = (val << 8) | b;
        i = i + 1;
    }
    if val == 0 { 1 } else { val }
}

/// Build the map for a ledger-mixed hash: a row-major 16x16 grid where each
/// cell draws its type and then its energy modifier from a xorshift64
/// generator seeded from the hash.
pub fn layout_from_combined_hash(combined: &[u8; 32], timestamp: u64) -> (r: NebulaLayout)
    ensures
        is_layout_from(r, combined@, timestamp),
{
    let prng_seed = seed_from_hash(combined);
    let mut rng = Xorshift64::new(prng_seed);
    let ghost start = rng.0;
    let mut cells: Vec<NebulaCell> = Vec::new();
    let mut total_energy: u32 = 0;
    let mut y: u32 = 0;
    while y < GRID_SIZE
        invariant
            y <= GRID_SIZE,
            start == initial_state(prng_seed_of(combined@)),
            cells@.len() == 16 * y,
            forall|j: int| 0 <= j < cells@.len() ==> cells@[j] == spec_cell(start, j),
            rng.0 == prng_state(start, (2 * cells@.len()) as nat),
            total_energy == energy_sum(cells@),
            energy_sum(cells@) <= 69 * cells@.len(),
        decreases GRID_SIZE - y,
    {
        let mut x: u32 = 0;
        while x < GRID_SIZE
            invariant
                x <= GRID_SIZE,
                y < GRID_SIZE,
                cells@.len() == 16 * y + x,
                forall|j: int| 0 <= j < cells@.len() ==> cells@[j] == spec_cell(start, j),
                rng.0 == prng_state(start, (2 * cells@.len()) as nat),
                total_energy == energy_sum(cells@),
                energy_sum(cells@) <= 69 * cells@.len(),
            decreases GRID_SIZE - x,
        {
            let ghost n = cells@.len() as int;
            let type_val = rng.next();
            assert(type_val == prng_state(start, (2 * n + 1) as nat));
            let energy_val = rng.next();
            assert(energy_val == prng_state(start, (2 * n + 2) as nat));
            let cell_type = cell_type_from_val(type_val);
            let energy = energy_for_cell(&cell_type, energy_val);
            total_energy = total_energy + energy;
            let cell = NebulaCell { x, y, cell_type, energy };
            proof {
                assert(n % 16 == x as int && n / 16 == y as int);
                assert(cell == spec_cell(start, n));
            }
            let ghost before = cells@;
            cells.push(cell);
            proof {
                assert(cells@.drop_last() =~= before);
            }
            x = x + 1;
        }
        y = y + 1;
    }
    assert(cells@ =~= spec_cells(start));
    NebulaLayout {
        width: GRID_SIZE,
        height: GRID_SIZE,
        cells,
        seed: *combined,
        timestamp,
        total_energy,
    }
}


/// Generate a 16x16 nebula map for `seed`, mixed with the current ledger
/// sequence and timestamp, which it reads from the host.  `_player` is the
/// player the map is generated for; the map does not depend on it.
pub fn generate_nebula_layout(env: &soroban_sdk::Env, seed: &[u8; 32], _player: &soroban_sdk::Address) -> (r: NebulaLayout)
    ensures
        exists|sequence: u32, timestamp: u64|
            is_layout_from(r, sha256_digest(ledger_mix_input(seed@, sequence, timestamp)), timestamp),
{
    let sequence = ledger_sequence(env);
    let timestamp = ledger_timestamp(env);
    let combined = compute_combined_hash(env, seed, sequence, timestamp);
    let layout = layout_from_combined_hash(&combined, timestamp);
    assert(is_layout_from(layout, sha256_digest(ledger_mix_input(seed@, sequence, timestamp)), timestamp));
    layout
}

/// The rarity score of a layout, `None` where it does not fit in a `u32`.
pub fn rarity_score(layout: &NebulaLayout) -> (r: Option<u32>)
    ensures
        r == (if rarity_score_of(*layout) <= u32::MAX {
            Some(rarity_score_of(*layout) as u32)
        } else {
            None::<u32>
        }),
{
    let rare = count_rare_cells(&layout.cells);
    let density = layout.total_energy / TOTAL_CELLS;
    if rare > 429_496_729 {
        None
    } else {
        let points = (rare as u32) * 10;
        if points > u32::MAX - density {
            None
        } else {
            Some(points + density)
        }
    }
}

fn count_rare_cells(cells: &Vec<NebulaCell>) -> (r: usize)
    ensures
        r == rare_count(cells@),
{
    let mut rare: usize = 0;
    let mut i: usize = 0;
    while i < cells.len()
        invariant
            i <= cells@.len(),
            rare == rare_count(cells@.take(i as int)),
            rare <= i,
        decreases cells@.len() - i,
    {
        proof {
            assert(cells@.take(i + 1).drop_last() =~= cells@.take(i as int));
        }
        match cells[i].cell_type {
            CellType::DarkMatter | CellType::ExoticMatter | CellType::Wormhole => {
                rare = rare + 1;
            },
            _ => {},
        }
        i = i + 1;
    }
    assert(cells@.take(cells@.len() as int) =~= cells@);
    rare
}

/// The rarity tier of a layout: ten points per DarkMatter, ExoticMatter or
/// Wormhole cell plus `total_energy / 256`, ranked by `rarity_for_score`.
/// The score must fit in a `u32`.
pub fn calculate_rarity_tier(_env: &soroban_sdk::Env, layout: &NebulaLayout) -> (r: Rarity)
    requires
        rarity_score_of(*layout) <= u32::MAX,
    ensures
        r == rarity_for_score(rarity_score_of(*layout)),
{
    let rare_cells = count_rare_cells(&layout.cells) as u32;
    let energy_density = layout.total_energy / TOTAL_CELLS;
    let rarity_score = rare_cells * 10 + energy_density;
    rarity_from_score(rarity_score)
}

/// Tier for a rarity score.
pub fn rarity_from_score(score: u32) -> (r: Rarity)
    ensures
        r == rarity_for_score(score as int),
{
    if score <= 49 {
        Rarity::Common
    } else if score <= 99 {
        Rarity::Uncommon
    } else if score <= 149 {
        Rarity::Rare
    } else if score <= 199 {
        Rarity::Epic
    } else {
        Rarity::Legendary
    }
}

/// Fingerprint of a layout: the host's SHA-256 of its seed, width, height,
/// total energy, timestamp and cell count.
pub fn compute_layout_hash(env: &soroban_sdk::Env, layout: &NebulaLayout) -> (r: [u8; 32])
    requires
        layout.cells@.len() <= u32::MAX,
    ensures
        r@ == sha256_digest(layout_hash_input(*layout)),
{
    let mut input: Vec<u8> = Vec::new();
    let mut i: usize = 0;
    while i < 32
        invariant
            i <= 32,
            input@ == layout.seed@.take(i as int),
        decreases 32 - i,
    {
        input.push(layout.seed[i]);
        i = i + 1;
        assert(input@ =~= layout.seed@.take(i as int));
    }
    assert(layout.seed@.take(32) =~= layout.seed@);
    push_u32_be(&mut input, layout.width);
    push_u32_be(&mut input, layout.height);
    push_u32_be(&mut input, layout.total_energy);
    push_u64_be(&mut input, layout.timestamp);
    push_u32_be(&mut input, layout.cells.len() as u32);
    host_sha256(env, &input)
}

/// The rare cell types are exactly DarkMatter, ExoticMatter and Wormhole;
/// Empty, Star, Asteroid, GasCloud and StellarDust are not rare.
pub proof fn lemma_rare_cell_types(t: CellType)
    ensures
        is_rare(t) <==> (t is DarkMatter || t is ExoticMatter || t is Wormhole),
        !is_rare(CellType::Empty),
        !is_rare(CellType::Star),
        !is_rare(CellType::Asteroid),
        !is_rare(CellType::GasCloud),
        !is_rare(CellType::StellarDust),
        is_rare(CellType::DarkMatter),
        is_rare(CellType::ExoticMatter),
        is_rare(CellType::Wormhole),
{
}

/// Appending a cell adds one to the rare count exactly when the cell is
/// DarkMatter, ExoticMatter or Wormhole.
pub proof fn lemma_rare_count_push(cells: Seq<NebulaCell>, c: NebulaCell)
    ensures
        rare_count(cells.push(c)) == rare_count(cells) + if c.cell_type is DarkMatter
            || c.cell_type is ExoticMatter || c.cell_type is Wormhole {
            1int
        } else {
            0int
        },
{
    assert(cells.push(c).drop_last() =~= cells);
}

/// A run of `n` cells all of type `t` has `n` rare cells when `t` is
/// DarkMatter, ExoticMatter or Wormhole, and none otherwise.
pub proof fn lemma_rare_count_uniform(cells: Seq<NebulaCell>, t: CellType)
    requires
        forall|i: int| 0 <= i < cells.len() ==> (#[trigger] cells[i]).cell_type == t,
    ensures
        rare_count(cells) == if t is DarkMatter || t is ExoticMatter || t is Wormhole {
            cells.len() as int
        } else {
            0int
        },
    decreases cells.len(),
{
    if cells.len() > 0 {
        let rest = cells.drop_last();
        assert forall|i: int| 0 <= i < rest.len() implies (#[trigger] rest[i]).cell_type == t by {
            assert(rest[i] == cells[i]);
        }
        lemma_rare_count_uniform(rest, t);
        assert(cells.last() == cells[cells.len() - 1]);
    }
}

/// The rarity score of a layout is ten points per DarkMatter, ExoticMatter
/// or Wormhole cell plus the total energy divided by 256: appending a rare
/// cell raises it by ten, any other cell leaves the cell part unchanged.
pub proof fn lemma_rarity_score_counts_rare_cells(layout: NebulaLayout, c: NebulaCell)
    ensures
        rare_count(layout.cells@.push(c)) * 10 + layout.total_energy / 256 == rarity_score_of(layout)
            + if c.cell_type is DarkMatter || c.cell_type is ExoticMatter || c.cell_type is Wormhole {
            10int
        } else {
            0int
        },
{
    lemma_rare_count_push(layout.cells@, c);
}

/// A higher rarity score never gives a lower tier.
pub proof fn lemma_rarity_monotone(s1: int, s2: int)
    requires
        s1 <= s2,
    ensures
        rarity_rank(rarity_for_score(s1)) <= rarity_rank(rarity_for_score(s2)),
{
}

proof fn lemma_energy_sum_bound(cells: Seq<NebulaCell>, bound: int)
    requires
        forall|i: int| 0 <= i < cells.len() ==> #[trigger] cells[i].energy <= bound,
        bound >= 0,
    ensures
        0 <= energy_sum(cells) <= bound * cells.len(),
    decreases cells.len(),
{
    if cells.len() > 0 {
        let rest = cells.drop_last();
        assert forall|i: int| 0 <= i < rest.len() implies #[trigger] rest[i].energy <= bound by {
            assert(rest[i] == cells[i]);
        }
        lemma_energy_sum_bound(rest, bound);
        assert(cells.last().energy <= bound);
        let n = cells.len() as int;
        assert(bound * (n - 1) + bound == bound * n) by (nonlinear_arith);
    }
}

proof fn lemma_rare_count_bound(cells: Seq<NebulaCell>)
    ensures
        rare_count(cells) <= cells.len(),
    decreases cells.len(),
{
    if cells.len() > 0 {
        lemma_rare_count_bound(cells.drop_last());
    }
}

/// Every generated map is a 16x16 grid listed row by row: cell `i` sits at
/// `(i % 16, i / 16)`, holds at most 69 energy, and the total energy is the
/// sum over the cells, at most 256 * 69.  Its rarity score therefore always
/// fits in a `u32`.
pub proof fn lemma_generated_layout_shape(layout: NebulaLayout, combined: Seq<u8>, timestamp: u64)
    requires
        is_layout_from(layout, combined, timestamp),
    ensures
        layout.cells@.len() == TOTAL_CELLS,
        forall|i: int|
            0 <= i < layout.cells@.len() ==> {
                &&& #[trigger] layout.cells@[i].x == i % 16
                &&& layout.cells@[i].y == i / 16
                &&& layout.cells@[i].x < GRID_SIZE
                &&& layout.cells@[i].y < GRID_SIZE
                &&& layout.cells@[i].energy <= 69
            },
        layout.total_energy <= 256 * 69,
        rarity_score_of(layout) <= 256 * 10 + 69,
{
    let cells = layout.cells@;
    let start = initial_state(prng_seed_of(combined));
    assert forall|i: int| 0 <= i < cells.len() implies #[trigger] cells[i].energy <= 69 by {
        assert(cells[i] == spec_cell(start, i));
    }
    lemma_energy_sum_bound(cells, 69);
    lemma_rare_count_bound(cells);
}

/// A map is fully determined by the player's seed and the ledger state it
/// was generated under: two maps generated from the same ledger-mixed hash
/// at the same time agree on every field.
pub proof fn lemma_layout_is_determined(l1: NebulaLayout, l2: NebulaLayout, combined: Seq<u8>, timestamp: u64)
    requires
        is_layout_from(l1, combined, timestamp),
        is_layout_from(l2, combined, timestamp),
    ensures
        l1.width == l2.width,
        l1.height == l2.height,
        l1.cells@ == l2.cells@,
        l1.seed@ == l2.seed@,
        l1.timestamp == l2.timestamp,
        l1.total_energy == l2.total_energy,
{
}

/// Xorshift64 never reaches the state zero from a non-zero state, so a
/// generator made by `Xorshift64::new` never stalls.
pub proof fn lemma_xorshift_nonzero(s: u64)
    requires
        s != 0,
    ensures
        xorshift_step(s) != 0,
{
    assert(s != 0 ==> ((s ^ (s << 13u64)) ^ ((s ^ (s << 13u64)) >> 7u64)) ^ (((s ^ (s << 13u64)) ^ ((s ^ (s << 13u64)) >> 7u64)) << 17u64) != 0) by (bit_vector);
}

} // verus!
