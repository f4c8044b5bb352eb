//! Staking yield on harvested resources.

use vstd::prelude::*;
use vstd::arithmetic::div_mod::{lemma_fundamental_div_mod, lemma_mod_pos_bound};

verus! {

/// Basis points in one unit (100%).
pub const BPS_DENOM: i128 = 10_000;

/// Ledgers closed per day (5 s per ledger).
pub const LEDGERS_PER_DAY: u32 = 17_280;

/// Ledgers closed per year of 365 days.
pub const LEDGERS_PER_YEAR: i128 = 6_307_200;

/// An in-game tradeable resource.
#[derive(Clone, Debug, PartialEq, Eq)]
pub struct Resource {
    pub id: u64,
    pub owner: String,
    pub resource_type: u32,
    pub quantity: u32,
}

/// A player's stake: the staked amount and the ledger of the last claim.
#[derive(Clone, Copy, Debug, PartialEq, Eq, Structural)]
pub struct StakeRecord {
    pub amount: i128,
    pub last_claim_ledger: u32,
}

/// Ledgers elapsed since the last claim, zero if `current_ledger` is not
/// later.
pub open spec fn elapsed_ledgers(stake: StakeRecord, current_ledger: u32) -> int {
    if current_ledger > stake.last_claim_ledger {
        current_ledger - stake.last_claim_ledger
    } else {
        0
    }
}

/// `a / b` rounded towards zero, as Rust's integer division does.
pub open spec fn div_toward_zero(a: int, b: int) -> int {
    if a >= 0 {
        a / b
    } else {
        -((-a) / b)
    }
}

/// Pro-rated yield of `amount` at `apy_bps` basis points a year over
/// `elapsed` ledgers: `amount * apy_bps / 10_000 * elapsed / LEDGERS_PER_YEAR`
/// computed as one product divided once, rounded towards zero.
pub open spec fn pro_rated_yield(amount: int, apy_bps: int, elapsed: int) -> int {
    div_toward_zero(amount * apy_bps * elapsed, BPS_DENOM * LEDGERS_PER_YEAR)
}

/// The yield a stake has earned at `current_ledger`.
pub open spec fn yield_of(stake: StakeRecord, current_ledger: u32, apy_bps: u32) -> int {
    pro_rated_yield(stake.amount as int, apy_bps as int, elapsed_ledgers(stake, current_ledger))
}

/// The yield a stake has earned since its last claim at `apy_bps` basis
/// points a year, pro-rated per ledger and rounded towards zero.  The
/// product `amount * apy_bps * elapsed` must fit in an `i128`.
pub fn calculate_yield(stake: &StakeRecord, current_ledger: u32, apy_bps: u32) -> (r: i128)
    requires
        i128::MIN <= stake.amount * apy_bps * elapsed_ledgers(*stake, current_ledger) <= i128::MAX,
    ensures
        r == yield_of(*stake, current_ledger, apy_bps),
{
    let elapsed = current_ledger.saturating_sub(stake.last_claim_ledger) as i128;
    if elapsed == 0 {
        return 0;
    }
    proof {
        assert(elapsed == elapsed_ledgers(*stake, current_ledger));
        let a = stake.amount as int;
        let p = apy_bps as int;
        let e = elapsed as int;
        assert(i128::MIN <= a * p <= i128::MAX) by (nonlinear_arith)
            requires
                i128::MIN <= a * p * e <= i128::MAX,
                1 <= e,
                0 <= p,
        ;
    }
    stake.amount * (apy_bps as i128) * elapsed / (BPS_DENOM * LEDGERS_PER_YEAR)
}


/// A stake held for exactly one year earns `amount * apy_bps / 10_000`
/// (rounded down): 100 staked at 5% earns 5.
pub proof fn lemma_one_year_yield(amount: int, apy_bps: int)
    requires
        amount >= 0,
        apy_bps >= 0,
    ensures
        pro_rated_yield(amount, apy_bps, LEDGERS_PER_YEAR as int) == amount * apy_bps / (BPS_DENOM as int),
{
    let x = amount * apy_bps;
    assert(x >= 0) by (nonlinear_arith)
        requires
            amount >= 0,
            apy_bps >= 0,
            x == amount * apy_bps,
    ;
    assert((x * 6_307_200int) / (10_000int * 6_307_200int) == x / 10_000int) by (nonlinear_arith)
        requires
            x >= 0,
    ;
}

proof fn lemma_floor_split(a: int, b: int, d: int)
    requires
        a >= 0,
        b >= 0,
        d > 0,
    ensures
        a / d + b / d <= (a + b) / d <= a / d + b / d + 1,
{
    let qa = a / d;
    let qb = b / d;
    let q = (a + b) / d;
    lemma_fundamental_div_mod(a, d);
    lemma_fundamental_div_mod(b, d);
    lemma_fundamental_div_mod(a + b, d);
    lemma_mod_pos_bound(a, d);
    lemma_mod_pos_bound(b, d);
    lemma_mod_pos_bound(a + b, d);
    let k = q - qa - qb;
    assert(d * k == a % d + b % d - (a + b) % d) by (nonlinear_arith)
        requires
            a == d * qa + a % d,
            b == d * qb + b % d,
            a + b == d * q + (a + b) % d,
            k == q - qa - qb,
    ;
    assert(0 <= k <= 1) by (nonlinear_arith)
        requires
            d > 0,
            -d < d * k < 2 * d,
    ;
}

/// Claiming in two windows never pays more than claiming once over the
/// whole period, and loses at most one unit to rounding: splitting claims
/// gains nothing.
pub proof fn lemma_split_claims_gain_nothing(amount: int, apy_bps: int, e1: int, e2: int)
    requires
        amount >= 0,
        apy_bps >= 0,
        e1 >= 0,
        e2 >= 0,
    ensures
        pro_rated_yield(amount, apy_bps, e1) + pro_rated_yield(amount, apy_bps, e2)
            <= pro_rated_yield(amount, apy_bps, e1 + e2)
            <= pro_rated_yield(amount, apy_bps, e1) + pro_rated_yield(amount, apy_bps, e2) + 1,
{
    let x = amount * apy_bps;
    assert(x >= 0 && x * e1 >= 0 && x * e2 >= 0 && x * (e1 + e2) == x * e1 + x * e2) by (nonlinear_arith)
        requires
            amount >= 0,
            apy_bps >= 0,
            e1 >= 0,
            e2 >= 0,
            x == amount * apy_bps,
    ;
    lemma_floor_split(x * e1, x * e2, BPS_DENOM * LEDGERS_PER_YEAR);
}

/// A stake's yield never decreases as more ledgers pass.
pub proof fn lemma_yield_grows_with_time(amount: int, apy_bps: int, e1: int, e2: int)
    requires
        amount >= 0,
        apy_bps >= 0,
        0 <= e1 <= e2,
    ensures
        0 <= pro_rated_yield(amount, apy_bps, e1) <= pro_rated_yield(amount, apy_bps, e2),
{
    lemma_split_claims_gain_nothing(amount, apy_bps, e1, e2 - e1);
    let x = amount * apy_bps;
    assert(x * (e2 - e1) >= 0 && x * e1 >= 0) by (nonlinear_arith)
        requires
            amount >= 0,
            apy_bps >= 0,
            0 <= e1 <= e2,
            x == amount * apy_bps,
    ;
}

} // verus!
