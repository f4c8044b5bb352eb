//! Nomad bonds: two players bond over a ship, and one of them can share a
//! percentage of their cosmic essence with the other.

use vstd::prelude::*;

use crate::text_map::TextMap;

verus! {

/// Lifecycle state of a nomad bond.
#[derive(Clone, Copy, Debug, PartialEq, Eq, Structural)]
pub enum BondStatus {
    /// Created, waiting for the partner to accept.
    Pending,
    /// Accepted by the partner.
    Active,
    /// Dissolved by one of the parties.
    Dissolved,
}

/// A bond between two players over a ship.
#[derive(Clone, Debug, PartialEq, Eq)]
pub struct NomadBond {
    pub bond_id: u64,
    pub initiator: String,
    pub partner: String,
    pub ship_id: u64,
    pub status: BondStatus,
    pub created_at: u64,
}

/// A share of the delegator's essence that the beneficiary may claim.
#[derive(Clone, Debug, PartialEq, Eq)]
pub struct YieldDelegation {
    pub bond_id: u64,
    pub delegator: String,
    pub beneficiary: String,
    pub percentage: u32,
    pub total_yielded: u64,
}

/// Why a bonding operation was refused.
#[derive(Clone, Copy, Debug, PartialEq, Eq, Structural)]
pub enum BondError {
    /// The initiator and the partner are the same player.
    SelfBond,
    /// No bond has the given id.
    BondNotFound,
    /// Only the designated partner can accept a bond.
    NotDesignatedPartner,
    /// The bond is not waiting for acceptance.
    BondNotPending,
    /// A delegated percentage must lie in 1..=100.
    InvalidPercentage,
    /// The bond is not active.
    BondNotActive,
    /// The delegator is neither party of the bond.
    NotBondMember,
    /// The bond has no yield delegation.
    NoDelegation,
    /// Only the beneficiary can claim the yield.
    NotBeneficiary,
    /// The bond is already dissolved.
    AlreadyDissolved,
    /// Only a party of the bond can dissolve it.
    NotBondParty,
    /// A bond id, a balance, a delegated share or a running total would
    /// exceed `u64::MAX`.
    Overflow,
}

/// The bonding state as mathematical values.
#[verifier::ext_equal]
pub struct BondLedgerModel {
    /// Bond `i + 1` is at index `i`.
    pub bonds: Seq<NomadBond>,
    /// The delegation of bond `i + 1`, if any, is at index `i`.
    pub delegations: Seq<Option<YieldDelegation>>,
    /// Cosmic essence balance of each player that has one.
    pub essence: Map<Seq<char>, u64>,
}

/// The bond with id `bond_id`.
pub open spec fn bond_of(m: BondLedgerModel, bond_id: u64) -> Option<NomadBond> {
    if 1 <= bond_id <= m.bonds.len() {
        Some(m.bonds[bond_id - 1])
    } else {
        None
    }
}

/// The yield delegation of bond `bond_id`.
pub open spec fn delegation_of(m: BondLedgerModel, bond_id: u64) -> Option<YieldDelegation> {
    if 1 <= bond_id <= m.delegations.len() {
        m.delegations[bond_id - 1]
    } else {
        None
    }
}

/// The essence balance of a player; zero for a player never credited.
pub open spec fn essence_of(m: BondLedgerModel, player: Seq<char>) -> u64 {
    if m.essence.contains_key(player) {
        m.essence[player]
    } else {
        0
    }
}

/// Position of a status in the lifecycle.
pub open spec fn status_rank(s: BondStatus) -> int {
    match s {
        BondStatus::Pending => 0,
        BondStatus::Active => 1,
        BondStatus::Dissolved => 2,
    }
}

/// The delegation `d` of bond `b` runs from one party to the other.
pub open spec fn delegation_fits(d: YieldDelegation, b: NomadBond) -> bool {
    ||| d.delegator@ == b.initiator@ && d.beneficiary@ == b.partner@
    ||| d.delegator@ == b.partner@ && d.beneficiary@ == b.initiator@
}

/// What every reachable bonding state satisfies: bonds are numbered from one
/// in order, nobody is bonded to themself, and every delegation belongs to
/// its bond, was made once the bond was accepted, runs from one party to the
/// other and shares between 1 and 100 percent.
pub open spec fn model_wf(m: BondLedgerModel) -> bool {
    &&& m.delegations.len() == m.bonds.len()
    &&& m.bonds.len() <= u64::MAX
    &&& forall|i: int| 0 <= i < m.bonds.len() ==> (#[trigger] m.bonds[i]).bond_id == i + 1
    &&& forall|i: int| 0 <= i < m.bonds.len() ==> (#[trigger] m.bonds[i]).initiator@ != m.bonds[i].partner@
    &&& forall|i: int|
        0 <= i < m.delegations.len() && (#[trigger] m.delegations[i]) is Some ==> {
            let d = m.delegations[i]->0;
            &&& d.bond_id == i + 1
            &&& 1 <= d.percentage <= 100
            &&& m.bonds[i].status != BondStatus::Pending
            &&& delegation_fits(d, m.bonds[i])
        }
}

/// `after` keeps every bond of `before` with the same parties, ship and
/// creation time, and no bond's status moves backwards.
pub open spec fn history_kept(before: BondLedgerModel, after: BondLedgerModel) -> bool {
    &&& before.bonds.len() <= after.bonds.len()
    &&& forall|i: int|
        0 <= i < before.bonds.len() ==> {
            &&& (#[trigger] after.bonds[i]).bond_id == before.bonds[i].bond_id
            &&& after.bonds[i].initiator == before.bonds[i].initiator
            &&& after.bonds[i].partner == before.bonds[i].partner
            &&& after.bonds[i].ship_id == before.bonds[i].ship_id
            &&& after.bonds[i].created_at == before.bonds[i].created_at
            &&& status_rank(before.bonds[i].status) <= status_rank(after.bonds[i].status)
        }
}

/// Effect of `create_bond`.
pub open spec fn create_bond_spec(m: BondLedgerModel, initiator: String, ship_id: u64, partner: String, now: u64) -> (BondLedgerModel, Result<NomadBond, BondError>) {
    if initiator@ == partner@ {
        (m, Err(BondError::SelfBond))
    } else if m.bonds.len() >= u64::MAX {
        (m, Err(BondError::Overflow))
    } else {
        let bond = NomadBond {
            bond_id: (m.bonds.len() + 1) as u64,
            initiator,
            partner,
            ship_id,
            status: BondStatus::Pending,
            created_at: now,
        };
        (BondLedgerModel { bonds: m.bonds.push(bond), delegations: m.delegations.push(None), ..m }, Ok(bond))
    }
}

/// `m` with bond `bond_id` replaced by `bond`.
pub open spec fn with_bond(m: BondLedgerModel, bond_id: u64, bond: NomadBond) -> BondLedgerModel {
    BondLedgerModel { bonds: m.bonds.update(bond_id - 1, bond), ..m }
}

/// Effect of `accept_bond`.
pub open spec fn accept_bond_spec(m: BondLedgerModel, partner: Seq<char>, bond_id: u64) -> (BondLedgerModel, Result<NomadBond, BondError>) {
    match bond_of(m, bond_id) {
        None => (m, Err(BondError::BondNotFound)),
        Some(b) => if b.partner@ != partner {
            (m, Err(BondError::NotDesignatedPartner))
        } else if b.status != BondStatus::Pending {
            (m, Err(BondError::BondNotPending))
        } else {
            let accepted = NomadBond { status: BondStatus::Active, ..b };
            (with_bond(m, bond_id, accepted), Ok(accepted))
        },
    }
}

/// Effect of `delegate_yield`.
pub open spec fn delegate_yield_spec(m: BondLedgerModel, delegator: String, bond_id: u64, percentage: u32) -> (BondLedgerModel, Result<YieldDelegation, BondError>) {
    if percentage == 0 || percentage > 100 {
        (m, Err(BondError::InvalidPercentage))
    } else {
        match bond_of(m, bond_id) {
            None => (m, Err(BondError::BondNotFound)),
            Some(b) => if b.status != BondStatus::Active {
                (m, Err(BondError::BondNotActive))
            } else if delegator@ != b.initiator@ && delegator@ != b.partner@ {
                (m, Err(BondError::NotBondMember))
            } else {
                let beneficiary = if delegator@ == b.initiator@ { b.partner } else { b.initiator };
                let d = YieldDelegation { bond_id, delegator, beneficiary, percentage, total_yielded: 0 };
                (BondLedgerModel { delegations: m.delegations.update(bond_id - 1, Some(d)), ..m }, Ok(d))
            },
        }
    }
}

/// `m` with the balance of `player` set to `amount`.
pub open spec fn with_essence(m: BondLedgerModel, player: Seq<char>, amount: u64) -> BondLedgerModel {
    BondLedgerModel { essence: m.essence.insert(player, amount), ..m }
}

/// Effect of `accrue_essence`.
pub open spec fn accrue_essence_spec(m: BondLedgerModel, player: Seq<char>, amount: u64) -> (BondLedgerModel, Result<(), BondError>) {
    if essence_of(m, player) + amount > u64::MAX {
        (m, Err(BondError::Overflow))
    } else {
        (with_essence(m, player, (essence_of(m, player) + amount) as u64), Ok(()))
    }
}

/// Effect of `claim_yield`: the beneficiary receives the delegated
/// percentage of the delegator's balance (rounded down), debited from the
/// delegator first.
pub open spec fn claim_yield_spec(m: BondLedgerModel, claimer: Seq<char>, bond_id: u64) -> (BondLedgerModel, Result<u64, BondError>) {
    match bond_of(m, bond_id) {
        None => (m, Err(BondError::BondNotFound)),
        Some(b) => if b.status != BondStatus::Active {
            (m, Err(BondError::BondNotActive))
        } else {
            match delegation_of(m, bond_id) {
                None => (m, Err(BondError::NoDelegation)),
                Some(d) => if claimer != d.beneficiary@ {
                    (m, Err(BondError::NotBeneficiary))
                } else {
                    let balance = essence_of(m, d.delegator@);
                    if balance == 0 {
                        (m, Ok(0))
                    } else if balance * d.percentage > u64::MAX {
                        (m, Err(BondError::Overflow))
                    } else {
                        let amount = (balance * d.percentage / 100) as u64;
                        if amount == 0 {
                            (m, Ok(0))
                        } else {
                            let debited = with_essence(m, d.delegator@, (balance - amount) as u64);
                            let credit = essence_of(debited, claimer) + amount;
                            if credit > u64::MAX || d.total_yielded + amount > u64::MAX {
                                (m, Err(BondError::Overflow))
                            } else {
                                let credited = with_essence(debited, claimer, credit as u64);
                                let d2 = YieldDelegation { total_yielded: (d.total_yielded + amount) as u64, ..d };
                                (BondLedgerModel { delegations: credited.delegations.update(bond_id - 1, Some(d2)), ..credited }, Ok(amount))
                            }
                        }
                    }
                },
            }
        },
    }
}

/// Effect of `dissolve_bond`.
pub open spec fn dissolve_bond_spec(m: BondLedgerModel, caller: Seq<char>, bond_id: u64) -> (BondLedgerModel, Result<NomadBond, BondError>) {
    match bond_of(m, bond_id) {
        None => (m, Err(BondError::BondNotFound)),
        Some(b) => if b.status == BondStatus::Dissolved {
            (m, Err(BondError::AlreadyDissolved))
        } else if caller != b.initiator@ && caller != b.partner@ {
            (m, Err(BondError::NotBondParty))
        } else {
            let dissolved = NomadBond { status: BondStatus::Dissolved, ..b };
            (with_bond(m, bond_id, dissolved), Ok(dissolved))
        },
    }
}

/// The bonding state the game stores: the bond counter, the bonds, their
/// yield delegations and the players' cosmic essence balances.
pub struct BondLedger {
    pub bond_counter: u64,
    pub bonds: Vec<NomadBond>,
    pub delegations: Vec<Option<YieldDelegation>>,
    pub essence: TextMap<u64>,
}

impl View for BondLedger {
    type V = BondLedgerModel;

    open spec fn view(&self) -> BondLedgerModel {
        BondLedgerModel {
            bonds: self.bonds@,
            delegations: self.delegations@,
            essence: self.essence.as_map(),
        }
    }
}

impl BondLedger {
    /// The counter matches the bonds, balances are keyed once, and the
    /// model satisfies `model_wf`.
    pub open spec fn wf(&self) -> bool {
        &&& self.bond_counter == self.bonds@.len()
        &&& self.essence.wf()
        &&& model_wf(self@)
    }

    /// No bonds and no balances.
    pub fn new() -> (r: Self)
        ensures
            r.wf(),
            r@.bonds.len() == 0,
            r@.essence == Map::<Seq<char>, u64>::empty(),
    {
        BondLedger { bond_counter: 0, bonds: Vec::new(), delegations: Vec::new(), essence: TextMap::new() }
    }
}

impl BondLedger {
    /// Check `wf`, for a ledger read back from storage.
    pub fn is_well_formed(&self) -> (r: bool)
        ensures
            r == self.wf(),
    {
        let n = self.bonds.len();
        if n as u64 != self.bond_counter || self.delegations.len() != n {
            return false;
        }
        if !self.essence.is_well_formed() {
            return false;
        }
        let mut i: usize = 0;
        while i < n
            invariant
                n == self.bonds@.len(),
                n == self.delegations@.len(),
                self.bond_counter == n,
                i <= n,
                forall|j: int| 0 <= j < i ==> (#[trigger] self.bonds@[j]).bond_id == j + 1,
                forall|j: int| 0 <= j < i ==> (#[trigger] self.bonds@[j]).initiator@ != self.bonds@[j].partner@,
                forall|j: int|
                    0 <= j < i && (#[trigger] self.delegations@[j]) is Some ==> {
                        let d = self.delegations@[j]->0;
                        &&& d.bond_id == j + 1
                        &&& 1 <= d.percentage <= 100
                        &&& self.bonds@[j].status != BondStatus::Pending
                        &&& delegation_fits(d, self.bonds@[j])
                    },
            decreases n - i,
        {
            let b = &self.bonds[i];
            if b.bond_id != (i as u64) + 1 || b.initiator == b.partner {
                return false;
            }
            match &self.delegations[i] {
                None => {},
                Some(d) => {
                    if d.bond_id != (i as u64) + 1 || d.percentage < 1 || d.percentage > 100
                        || b.status == BondStatus::Pending {
                        return false;
                    }
                    let fits = (d.delegator == b.initiator && d.beneficiary == b.partner)
                        || (d.delegator == b.partner && d.beneficiary == b.initiator);
                    if !fits {
                        return false;
                    }
                },
            }
            i = i + 1;
        }
        true
    }
}

fn copy_bond(b: &NomadBond) -> (r: NomadBond)
    ensures
        r == *b,
{
    NomadBond {
        bond_id: b.bond_id,
        initiator: b.initiator.clone(),
        partner: b.partner.clone(),
        ship_id: b.ship_id,
        status: b.status,
        created_at: b.created_at,
    }
}

fn copy_delegation(d: &YieldDelegation) -> (r: YieldDelegation)
    ensures
        r == *d,
{
    YieldDelegation {
        bond_id: d.bond_id,
        delegator: d.delegator.clone(),
        beneficiary: d.beneficiary.clone(),
        percentage: d.percentage,
        total_yielded: d.total_yielded,
    }
}

fn bond_index(ledger: &BondLedger, bond_id: u64) -> (r: Option<usize>)
    requires
        ledger.wf(),
    ensures
        match r {
            Some(i) => 1 <= bond_id <= ledger.bonds@.len() && i == bond_id - 1,
            None => bond_of(ledger@, bond_id) is None,
        },
{
    let n = ledger.bonds.len();
    if bond_id == 0 || bond_id > n as u64 {
        None
    } else {
        Some((bond_id - 1) as usize)
    }
}

fn balance_of(essence: &TextMap<u64>, player: &String) -> (r: u64)
    requires
        essence.wf(),
    ensures
        r == (if essence.as_map().contains_key(player@) { essence.as_map()[player@] } else { 0 }),
{
    match essence.get(player) {
        Some(b) => *b,
        None => 0,
    }
}

/// Propose a bond from `initiator` to `partner` over `ship_id`, created at
/// ledger time `now`.  It takes the next bond id and starts `Pending`.
/// Refused with `SelfBond` when both are the same player.
pub fn create_bond(ledger: &mut BondLedger, initiator: &String, ship_id: u64, partner: &String, now: u64) -> (r: Result<NomadBond, BondError>)
    requires
        old(ledger).wf(),
    ensures
        final(ledger).wf(),
        final(ledger)@ == create_bond_spec(old(ledger)@, *initiator, ship_id, *partner, now).0,
        r == create_bond_spec(old(ledger)@, *initiator, ship_id, *partner, now).1,
{
    if *initiator == *partner {
        return Err(BondError::SelfBond);
    }
    if ledger.bond_counter == u64::MAX {
        return Err(BondError::Overflow);
    }
    let bond_id = ledger.bond_counter + 1;
    let bond = NomadBond {
        bond_id,
        initiator: initiator.clone(),
        partner: partner.clone(),
        ship_id,
        status: BondStatus::Pending,
        created_at: now,
    };
    let ghost before = ledger@;
    ledger.bonds.push(copy_bond(&bond));
    ledger.delegations.push(None);
    ledger.bond_counter = bond_id;
    proof {
        let after = create_bond_spec(before, *initiator, ship_id, *partner, now).0;
        assert(ledger@ =~= after);
        assert forall|i: int| 0 <= i < ledger@.delegations.len() && (#[trigger] ledger@.delegations[i]) is Some implies {
            let d = ledger@.delegations[i]->0;
            &&& d.bond_id == i + 1
            &&& 1 <= d.percentage <= 100
            &&& ledger@.bonds[i].status != BondStatus::Pending
            &&& delegation_fits(d, ledger@.bonds[i])
        } by {
            assert(i < before.delegations.len());
            assert(before.delegations[i] is Some);
            assert(ledger@.bonds[i] == before.bonds[i]);
        }
    }
    Ok(bond)
}


proof fn lemma_wf_replace_bond(m: BondLedgerModel, i: int, b: NomadBond)
    requires
        model_wf(m),
        0 <= i < m.bonds.len(),
        b.bond_id == m.bonds[i].bond_id,
        b.initiator == m.bonds[i].initiator,
        b.partner == m.bonds[i].partner,
        m.delegations[i] is Some ==> b.status != BondStatus::Pending,
    ensures
        model_wf(BondLedgerModel { bonds: m.bonds.update(i, b), ..m }),
{
    let m2 = BondLedgerModel { bonds: m.bonds.update(i, b), ..m };
    assert forall|j: int| 0 <= j < m2.delegations.len() && (#[trigger] m2.delegations[j]) is Some implies {
        let d = m2.delegations[j]->0;
        &&& d.bond_id == j + 1
        &&& 1 <= d.percentage <= 100
        &&& m2.bonds[j].status != BondStatus::Pending
        &&& delegation_fits(d, m2.bonds[j])
    } by {
        assert(m.delegations[j] is Some);
    }
    assert forall|j: int| 0 <= j < m2.bonds.len() implies (#[trigger] m2.bonds[j]).bond_id == j + 1
        && m2.bonds[j].initiator@ != m2.bonds[j].partner@ by {
        assert(m.bonds[j].bond_id == j + 1);
        assert(m.bonds[j].initiator@ != m.bonds[j].partner@);
    }
}

proof fn lemma_wf_replace_delegation(m: BondLedgerModel, i: int, d: YieldDelegation)
    requires
        model_wf(m),
        0 <= i < m.bonds.len(),
        d.bond_id == i + 1,
        1 <= d.percentage <= 100,
        m.bonds[i].status != BondStatus::Pending,
        delegation_fits(d, m.bonds[i]),
    ensures
        model_wf(BondLedgerModel { delegations: m.delegations.update(i, Some(d)), ..m }),
{
    let m2 = BondLedgerModel { delegations: m.delegations.update(i, Some(d)), ..m };
    assert forall|j: int| 0 <= j < m2.delegations.len() && (#[trigger] m2.delegations[j]) is Some implies {
        let e = m2.delegations[j]->0;
        &&& e.bond_id == j + 1
        &&& 1 <= e.percentage <= 100
        &&& m2.bonds[j].status != BondStatus::Pending
        &&& delegation_fits(e, m2.bonds[j])
    } by {
        if j != i {
            assert(m.delegations[j] is Some);
        }
    }
}

/// The invited partner accepts a pending bond, which becomes `Active`.
/// Refused with `BondNotFound`, `NotDesignatedPartner` or `BondNotPending`,
/// checked in that order.
pub fn accept_bond(ledger: &mut BondLedger, partner: &String, bond_id: u64) -> (r: Result<NomadBond, BondError>)
    requires
        old(ledger).wf(),
    ensures
        final(ledger).wf(),
        final(ledger)@ == accept_bond_spec(old(ledger)@, partner@, bond_id).0,
        r == accept_bond_spec(old(ledger)@, partner@, bond_id).1,
{
    let i = match bond_index(ledger, bond_id) {
        None => return Err(BondError::BondNotFound),
        Some(i) => i,
    };
    if !(ledger.bonds[i].partner == *partner) {
        return Err(BondError::NotDesignatedPartner);
    }
    if ledger.bonds[i].status != BondStatus::Pending {
        return Err(BondError::BondNotPending);
    }
    let ghost before = ledger@;
    let mut bond = copy_bond(&ledger.bonds[i]);
    bond.status = BondStatus::Active;
    ledger.bonds.set(i, copy_bond(&bond));
    proof {
        if before.delegations[i as int] is Some {
            assert(before.bonds[i as int].status != BondStatus::Pending);
        }
        lemma_wf_replace_bond(before, i as int, bond);
        assert(ledger@ =~= accept_bond_spec(before, partner@, bond_id).0);
    }
    Ok(bond)
}

/// A party of an active bond shares `percentage` percent of their essence
/// with the other party, replacing any earlier delegation of the bond.
/// Refused with `InvalidPercentage` (outside 1..=100), `BondNotFound`,
/// `BondNotActive` or `NotBondMember`, checked in that order.
pub fn delegate_yield(ledger: &mut BondLedger, delegator: &String, bond_id: u64, percentage: u32) -> (r: Result<YieldDelegation, BondError>)
    requires
        old(ledger).wf(),
    ensures
        final(ledger).wf(),
        final(ledger)@ == delegate_yield_spec(old(ledger)@, *delegator, bond_id, percentage).0,
        r == delegate_yield_spec(old(ledger)@, *delegator, bond_id, percentage).1,
{
    if percentage == 0 || percentage > 100 {
        return Err(BondError::InvalidPercentage);
    }
    let i = match bond_index(ledger, bond_id) {
        None => return Err(BondError::BondNotFound),
        Some(i) => i,
    };
    if ledger.bonds[i].status != BondStatus::Active {
        return Err(BondError::BondNotActive);
    }
    let beneficiary = if *delegator == ledger.bonds[i].initiator {
        ledger.bonds[i].partner.clone()
    } else if *delegator == ledger.bonds[i].partner {
        ledger.bonds[i].initiator.clone()
    } else {
        return Err(BondError::NotBondMember);
    };
    let delegation = YieldDelegation {
        bond_id,
        delegator: delegator.clone(),
        beneficiary,
        percentage,
        total_yielded: 0,
    };
    let ghost before = ledger@;
    ledger.delegations.set(i, Some(copy_delegation(&delegation)));
    proof {
        lemma_wf_replace_delegation(before, i as int, delegation);
        assert(ledger@ =~= delegate_yield_spec(before, *delegator, bond_id, percentage).0);
    }
    Ok(delegation)
}

/// Award `amount` cosmic essence to `player`.  Refused with `Overflow` when
/// the balance would exceed `u64::MAX`.
pub fn accrue_essence(ledger: &mut BondLedger, player: &String, amount: u64) -> (r: Result<(), BondError>)
    requires
        old(ledger).wf(),
    ensures
        final(ledger).wf(),
        final(ledger)@ == accrue_essence_spec(old(ledger)@, player@, amount).0,
        r == accrue_essence_spec(old(ledger)@, player@, amount).1,
{
    let balance = balance_of(&ledger.essence, player);
    if balance > u64::MAX - amount {
        return Err(BondError::Overflow);
    }
    let ghost before = ledger@;
    ledger.essence.insert(player.clone(), balance + amount);
    assert(ledger@ =~= accrue_essence_spec(before, player@, amount).0);
    Ok(())
}

/// The beneficiary of a bond's delegation claims it: the delegated
/// percentage of the delegator's balance, rounded down, moves from the
/// delegator to the claimer and is added to the delegation's running total.
/// Nothing moves (and zero is returned) when that amount is zero.  Refused
/// with `BondNotFound`, `BondNotActive`, `NoDelegation`, `NotBeneficiary`
/// or `Overflow`, checked in that order.
pub fn claim_yield(ledger: &mut BondLedger, claimer: &String, bond_id: u64) -> (r: Result<u64, BondError>)
    requires
        old(ledger).wf(),
    ensures
        final(ledger).wf(),
        final(ledger)@ == claim_yield_spec(old(ledger)@, claimer@, bond_id).0,
        r == claim_yield_spec(old(ledger)@, claimer@, bond_id).1,
{
    let i = match bond_index(ledger, bond_id) {
        None => return Err(BondError::BondNotFound),
        Some(i) => i,
    };
    if ledger.bonds[i].status != BondStatus::Active {
        return Err(BondError::BondNotActive);
    }
    let mut delegation = match &ledger.delegations[i] {
        None => return Err(BondError::NoDelegation),
        Some(d) => copy_delegation(d),
    };
    if !(*claimer == delegation.beneficiary) {
        return Err(BondError::NotBeneficiary);
    }
    let balance = balance_of(&ledger.essence, &delegation.delegator);
    if balance == 0 {
        return Ok(0);
    }
    let product = match balance.checked_mul(delegation.percentage as u64) {
        None => return Err(BondError::Overflow),
        Some(p) => p,
    };
    let amount = product / 100;
    if amount == 0 {
        return Ok(0);
    }
    proof {
        assert(ledger@.delegations[i as int] is Some);
        let pct = delegation.percentage as int;
        assert(pct <= 100);
        assert(product as int / 100 <= balance as int) by (nonlinear_arith)
            requires
                product as int == balance as int * pct,
                pct <= 100,
                balance >= 0,
        ;
    }
    let debited = balance - amount;
    let credit_base = if *claimer == delegation.delegator {
        debited
    } else {
        balance_of(&ledger.essence, claimer)
    };
    if credit_base > u64::MAX - amount || delegation.total_yielded > u64::MAX - amount {
        return Err(BondError::Overflow);
    }
    let ghost before = ledger@;
    ledger.essence.insert(delegation.delegator.clone(), debited);
    ledger.essence.insert(claimer.clone(), credit_base + amount);
    delegation.total_yielded = delegation.total_yielded + amount;
    ledger.delegations.set(i, Some(copy_delegation(&delegation)));
    proof {
        lemma_wf_replace_delegation(before, i as int, delegation);
        assert(ledger@ =~= claim_yield_spec(before, claimer@, bond_id).0);
    }
    Ok(amount)
}

/// Either party dissolves a bond that is not dissolved yet; no yield can be
/// claimed on it afterwards.  Refused with `BondNotFound`,
/// `AlreadyDissolved` or `NotBondParty`, checked in that order.
pub fn dissolve_bond(ledger: &mut BondLedger, caller: &String, bond_id: u64) -> (r: Result<NomadBond, BondError>)
    requires
        old(ledger).wf(),
    ensures
        final(ledger).wf(),
        final(ledger)@ == dissolve_bond_spec(old(ledger)@, caller@, bond_id).0,
        r == dissolve_bond_spec(old(ledger)@, caller@, bond_id).1,
{
    let i = match bond_index(ledger, bond_id) {
        None => return Err(BondError::BondNotFound),
        Some(i) => i,
    };
    if ledger.bonds[i].status == BondStatus::Dissolved {
        return Err(BondError::AlreadyDissolved);
    }
    if !(*caller == ledger.bonds[i].initiator) && !(*caller == ledger.bonds[i].partner) {
        return Err(BondError::NotBondParty);
    }
    let ghost before = ledger@;
    let mut bond = copy_bond(&ledger.bonds[i]);
    bond.status = BondStatus::Dissolved;
    ledger.bonds.set(i, copy_bond(&bond));
    proof {
        lemma_wf_replace_bond(before, i as int, bond);
        assert(ledger@ =~= dissolve_bond_spec(before, caller@, bond_id).0);
    }
    Ok(bond)
}

/// The bond with id `bond_id`; `BondNotFound` if there is none.
pub fn get_bond(ledger: &BondLedger, bond_id: u64) -> (r: Result<NomadBond, BondError>)
    requires
        ledger.wf(),
    ensures
        r == (match bond_of(ledger@, bond_id) {
            Some(b) => Ok(b),
            None => Err(BondError::BondNotFound),
        }),
{
    match bond_index(ledger, bond_id) {
        None => Err(BondError::BondNotFound),
        Some(i) => Ok(copy_bond(&ledger.bonds[i])),
    }
}

/// The yield delegation of bond `bond_id`; `NoDelegation` if there is none.
pub fn get_yield_delegation(ledger: &BondLedger, bond_id: u64) -> (r: Result<YieldDelegation, BondError>)
    requires
        ledger.wf(),
    ensures
        r == (match delegation_of(ledger@, bond_id) {
            Some(d) => Ok(d),
            None => Err(BondError::NoDelegation),
        }),
{
    match bond_index(ledger, bond_id) {
        None => Err(BondError::NoDelegation),
        Some(i) => match &ledger.delegations[i] {
            None => Err(BondError::NoDelegation),
            Some(d) => Ok(copy_delegation(d)),
        },
    }
}

/// The cosmic essence balance of `player`, zero if never credited.
pub fn get_essence_balance(ledger: &BondLedger, player: &String) -> (r: u64)
    requires
        ledger.wf(),
    ensures
        r == essence_of(ledger@, player@),
{
    balance_of(&ledger.essence, player)
}


/// One bonding operation with its arguments.
#[allow(inconsistent_fields)]
pub enum BondAction {
    Create { initiator: String, ship_id: u64, partner: String, now: u64 },
    Accept { partner: Seq<char>, bond_id: u64 },
    Delegate { delegator: String, bond_id: u64, percentage: u32 },
    Accrue { player: Seq<char>, amount: u64 },
    Claim { claimer: Seq<char>, bond_id: u64 },
    Dissolve { caller: Seq<char>, bond_id: u64 },
}

/// The state after an operation, whether it succeeded or was refused.
pub open spec fn apply_action(m: BondLedgerModel, a: BondAction) -> BondLedgerModel {
    match a {
        BondAction::Create { initiator, ship_id, partner, now } => create_bond_spec(m, initiator, ship_id, partner, now).0,
        BondAction::Accept { partner, bond_id } => accept_bond_spec(m, partner, bond_id).0,
        BondAction::Delegate { delegator, bond_id, percentage } => delegate_yield_spec(m, delegator, bond_id, percentage).0,
        BondAction::Accrue { player, amount } => accrue_essence_spec(m, player, amount).0,
        BondAction::Claim { claimer, bond_id } => claim_yield_spec(m, claimer, bond_id).0,
        BondAction::Dissolve { caller, bond_id } => dissolve_bond_spec(m, caller, bond_id).0,
    }
}

proof fn lemma_wf_push_bond(m: BondLedgerModel, b: NomadBond)
    requires
        model_wf(m),
        m.bonds.len() < u64::MAX,
        b.bond_id == m.bonds.len() + 1,
        b.initiator@ != b.partner@,
    ensures
        model_wf(BondLedgerModel { bonds: m.bonds.push(b), delegations: m.delegations.push(None), ..m }),
{
    let m2 = BondLedgerModel { bonds: m.bonds.push(b), delegations: m.delegations.push(None), ..m };
    assert forall|j: int| 0 <= j < m2.delegations.len() && (#[trigger] m2.delegations[j]) is Some implies {
        let d = m2.delegations[j]->0;
        &&& d.bond_id == j + 1
        &&& 1 <= d.percentage <= 100
        &&& m2.bonds[j].status != BondStatus::Pending
        &&& delegation_fits(d, m2.bonds[j])
    } by {
        assert(j < m.delegations.len());
        assert(m.delegations[j] is Some);
        assert(m2.bonds[j] == m.bonds[j]);
    }
    assert forall|j: int| 0 <= j < m2.bonds.len() implies (#[trigger] m2.bonds[j]).bond_id == j + 1
        && m2.bonds[j].initiator@ != m2.bonds[j].partner@ by {
        if j < m.bonds.len() {
            assert(m2.bonds[j] == m.bonds[j]);
        }
    }
}

/// Every operation, accepted or refused, keeps the bonding invariant
/// `model_wf`, keeps every existing bond's id, parties, ship and creation
/// time, and never moves a bond's status backwards (so a dissolved bond
/// stays dissolved).
pub proof fn lemma_every_action_keeps_invariant(m: BondLedgerModel, a: BondAction)
    requires
        model_wf(m),
    ensures
        model_wf(apply_action(m, a)),
        history_kept(m, apply_action(m, a)),
{
    match a {
        BondAction::Create { initiator, ship_id, partner, now } => {
            let r = create_bond_spec(m, initiator, ship_id, partner, now);
            if r.1 is Ok {
                lemma_wf_push_bond(m, r.1->Ok_0);
                assert forall|i: int| 0 <= i < m.bonds.len() implies #[trigger] r.0.bonds[i] == m.bonds[i] by {}
            }
        },
        BondAction::Accept { partner, bond_id } => {
            let r = accept_bond_spec(m, partner, bond_id);
            if r.1 is Ok {
                let i = bond_id - 1;
                if m.delegations[i] is Some {
                    assert(m.bonds[i].status != BondStatus::Pending);
                }
                lemma_wf_replace_bond(m, i, r.1->Ok_0);
            }
        },
        BondAction::Delegate { delegator, bond_id, percentage } => {
            let r = delegate_yield_spec(m, delegator, bond_id, percentage);
            if r.1 is Ok {
                lemma_wf_replace_delegation(m, bond_id - 1, r.1->Ok_0);
            }
        },
        BondAction::Accrue { player, amount } => {},
        BondAction::Claim { claimer, bond_id } => {
            let r = claim_yield_spec(m, claimer, bond_id);
            if r.0 != m {
                let i = bond_id - 1;
                assert(m.delegations[i] is Some);
                let d = m.delegations[i]->0;
                let amount = (essence_of(m, d.delegator@) * d.percentage / 100) as u64;
                let d2 = YieldDelegation { total_yielded: (d.total_yielded + amount) as u64, ..d };
                lemma_wf_replace_delegation(m, i, d2);
                assert(r.0.delegations == m.delegations.update(i, Some(d2)));
            }
        },
        BondAction::Dissolve { caller, bond_id } => {
            let r = dissolve_bond_spec(m, caller, bond_id);
            if r.1 is Ok {
                let i = bond_id - 1;
                lemma_wf_replace_bond(m, i, r.1->Ok_0);
            }
        },
    }
}

/// A proposed bond is stored under the next id, starts `Pending`, and
/// reads back unchanged; earlier bonds are untouched.
pub proof fn lemma_created_bond_reads_back(m: BondLedgerModel, initiator: String, ship_id: u64, partner: String, now: u64)
    requires
        model_wf(m),
    ensures
        ({
            let (m2, r) = create_bond_spec(m, initiator, ship_id, partner, now);
            r matches Ok(b) ==> {
                &&& b.bond_id == m.bonds.len() + 1
                &&& b.status == BondStatus::Pending
                &&& bond_of(m2, b.bond_id) == Some(b)
                &&& delegation_of(m2, b.bond_id) is None
                &&& forall|id: u64| id != b.bond_id ==> #[trigger] bond_of(m2, id) == bond_of(m, id)
            }
        }),
{
}

/// When each operation succeeds, and what it then gives back.  A bond is
/// created only between two different players and starts `Pending`; only
/// its designated partner accepts it, and only while it is `Pending`; yield
/// is delegated only on an `Active` bond, by one of its two parties, to the
/// other party, at 1 to 100 percent; yield is claimed only on an `Active`
/// bond, by the beneficiary; a bond is dissolved only by one of its parties
/// and only once.  A delegation attempt on a bond that is not `Active` is
/// refused and changes nothing.
pub proof fn lemma_when_operations_succeed(m: BondLedgerModel, a: String, b: String, ship_id: u64, now: u64, bond_id: u64, percentage: u32)
    requires
        model_wf(m),
    ensures
        create_bond_spec(m, a, ship_id, b, now).1 matches Ok(bond) ==> a@ != b@ && bond.initiator == a
            && bond.partner == b && bond.ship_id == ship_id && bond.created_at == now
            && bond.status == BondStatus::Pending,
        accept_bond_spec(m, b@, bond_id).1 matches Ok(bond) ==> bond_of(m, bond_id) is Some
            && bond_of(m, bond_id)->0.status == BondStatus::Pending
            && bond_of(m, bond_id)->0.partner@ == b@ && bond.status == BondStatus::Active
            && bond_of(accept_bond_spec(m, b@, bond_id).0, bond_id) == Some(bond),
        delegate_yield_spec(m, a, bond_id, percentage).1 matches Ok(d) ==> {
            &&& bond_of(m, bond_id) is Some
            &&& bond_of(m, bond_id)->0.status == BondStatus::Active
            &&& 1 <= percentage <= 100
            &&& d.bond_id == bond_id && d.delegator == a && d.percentage == percentage && d.total_yielded == 0
            &&& (a@ == bond_of(m, bond_id)->0.initiator@ && d.beneficiary == bond_of(m, bond_id)->0.partner)
                || (a@ != bond_of(m, bond_id)->0.initiator@ && a@ == bond_of(m, bond_id)->0.partner@
                && d.beneficiary == bond_of(m, bond_id)->0.initiator)
            &&& delegation_of(delegate_yield_spec(m, a, bond_id, percentage).0, bond_id) == Some(d)
        },
        bond_of(m, bond_id) is Some && bond_of(m, bond_id)->0.status != BondStatus::Active && 1 <= percentage <= 100
            ==> delegate_yield_spec(m, a, bond_id, percentage) == (m, Err::<YieldDelegation, BondError>(BondError::BondNotActive)),
        claim_yield_spec(m, b@, bond_id).1 is Ok && claim_yield_spec(m, b@, bond_id).0 != m ==> {
            &&& bond_of(m, bond_id) is Some
            &&& bond_of(m, bond_id)->0.status == BondStatus::Active
            &&& delegation_of(m, bond_id) is Some
            &&& delegation_of(m, bond_id)->0.beneficiary@ == b@
        },
        claim_yield_spec(m, b@, bond_id).1 is Ok ==> bond_of(m, bond_id) is Some
            && bond_of(m, bond_id)->0.status == BondStatus::Active,
        dissolve_bond_spec(m, a@, bond_id).1 matches Ok(bond) ==> bond_of(m, bond_id) is Some
            && bond_of(m, bond_id)->0.status != BondStatus::Dissolved
            && (a@ == bond_of(m, bond_id)->0.initiator@ || a@ == bond_of(m, bond_id)->0.partner@)
            && bond.status == BondStatus::Dissolved
            && bond_of(dissolve_bond_spec(m, a@, bond_id).0, bond_id) == Some(bond),
{
}

/// Once a bond is dissolved no yield can be claimed on it: every claim is
/// refused with `BondNotActive` and moves nothing.
pub proof fn lemma_dissolved_bond_yields_nothing(m: BondLedgerModel, caller: Seq<char>, bond_id: u64, claimer: Seq<char>)
    requires
        model_wf(m),
    ensures
        bond_of(m, bond_id) matches Some(b) && b.status == BondStatus::Dissolved
            ==> claim_yield_spec(m, claimer, bond_id) == (m, Err::<u64, BondError>(BondError::BondNotActive)),
        dissolve_bond_spec(m, caller, bond_id).1 is Ok ==> claim_yield_spec(dissolve_bond_spec(m, caller, bond_id).0, claimer, bond_id)
            == (dissolve_bond_spec(m, caller, bond_id).0, Err::<u64, BondError>(BondError::BondNotActive)),
{
}

/// A successful claim moves essence from the delegator to the claimer and
/// creates or destroys none: the claimed amount is the delegated percentage
/// of the delegator's balance rounded down, never more than that balance,
/// the two balances keep their sum, and every other balance is unchanged.
pub proof fn lemma_claim_moves_essence(m: BondLedgerModel, claimer: Seq<char>, bond_id: u64)
    requires
        model_wf(m),
    ensures
        ({
            let (m2, r) = claim_yield_spec(m, claimer, bond_id);
            r matches Ok(amount) ==> {
                let d = delegation_of(m, bond_id)->0;
                let delegator = d.delegator@;
                &&& delegation_of(m, bond_id) is Some
                &&& claimer == d.beneficiary@
                &&& delegator != claimer
                &&& amount == essence_of(m, delegator) * d.percentage / 100
                &&& amount <= essence_of(m, delegator)
                &&& essence_of(m2, delegator) == essence_of(m, delegator) - amount
                &&& essence_of(m2, claimer) == essence_of(m, claimer) + amount
                &&& essence_of(m2, delegator) + essence_of(m2, claimer) == essence_of(m, delegator) + essence_of(m, claimer)
                &&& forall|p: Seq<char>| p != delegator && p != claimer ==> #[trigger] essence_of(m2, p) == essence_of(m, p)
            }
        }),
{
    let (m2, r) = claim_yield_spec(m, claimer, bond_id);
    if r is Ok {
        let i = bond_id - 1;
        assert(m.delegations[i] is Some);
        let d = m.delegations[i]->0;
        let b = m.bonds[i];
        assert(d.beneficiary@ == claimer);
        assert(d.delegator@ != claimer);
        let bal = essence_of(m, d.delegator@) as int;
        let pct = d.percentage as int;
        assert(bal * pct / 100 <= bal) by (nonlinear_arith)
            requires
                0 <= bal,
                1 <= pct <= 100,
        ;
    }
}

} // verus!
