use vstd::prelude::*;

use crate::error::ContractError;
use crate::fixed::{mul_floor, mul_floor_rate, mul_ratio_floor, Decimal18, DECIMAL_FRACTIONAL};
use crate::msg::{Coin, InstantiateMsg, InvestmentResponse, LockType, UserStakingInfoResponse};
use crate::state::{
    lemma_sum_element_le, lemma_sum_push, lemma_sum_remove, lemma_sum_update, sum_amounts,
    LockPrd, LockTax, PositionStore, StakingInfo, Supply, UserStakingInfo,
};

verus! {

/// The tax rate the configuration assigns to a duration class.
pub open spec fn spec_tax_rate(cfg: StakingInfo, lock_type: LockType) -> Decimal18 {
    match lock_type {
        LockType::Long {  } => cfg.tax.long,
        LockType::Short {  } => cfg.tax.short,
    }
}

/// The lock period the configuration assigns to a duration class.
pub open spec fn spec_period(cfg: StakingInfo, lock_type: LockType) -> u64 {
    match lock_type {
        LockType::Long {  } => cfg.period.long,
        LockType::Short {  } => cfg.period.short,
    }
}

/// The tax withheld when `amount` is locked at duration class `lock_type`.
pub open spec fn spec_lock_tax(cfg: StakingInfo, lock_type: LockType, amount: u128) -> int {
    mul_floor(amount, spec_tax_rate(cfg, lock_type))
}

/// Whether a position has not yet matured at time `now`.
pub open spec fn before_maturity(pos: UserStakingInfo, now: u64) -> bool {
    (now as int) < pos.date + pos.period
}

/// The penalty withheld when `release` units are unlocked from `pos` at time
/// `now`: a slice of the released amount before maturity, nothing after.
pub open spec fn spec_penalty(
    cfg: StakingInfo,
    pos: UserStakingInfo,
    release: u128,
    now: u64,
) -> int {
    if before_maturity(pos, now) {
        mul_floor(release, cfg.penalty)
    } else {
        0
    }
}

/// Conservation: the ledger's locked total equals the sum of the outstanding
/// amounts of all stored positions.
pub open spec fn conserved(supply: Supply, store: PositionStore) -> bool {
    supply.locked == sum_amounts(store.positions@)
}

/// Whether booking a lock of `amount` would push a ledger total past the
/// representable range.
pub open spec fn lock_would_overflow(
    cfg: StakingInfo,
    supply: Supply,
    amount: u128,
    lock_type: LockType,
) -> bool {
    let tax = spec_lock_tax(cfg, lock_type, amount);
    ||| supply.locked + amount > u128::MAX
    ||| supply.issued + (amount - tax) > u128::MAX
    ||| supply.fees + tax > u128::MAX
}

/// Creates the ledger: the immutable configuration, the zeroed totals and an
/// empty position store. The percent rates must name fractions in [0, 1].
pub fn instantiate(msg: &InstantiateMsg, sender: &String) -> (r: (
    StakingInfo,
    Supply,
    PositionStore,
))
    requires
        msg.long_tax <= 100,
        msg.short_tax <= 100,
        msg.penalty <= 100,
    ensures
        r.0.wf(),
        r.0.owner@ == sender@,
        r.0.stake_denom@ == msg.stake_denom@,
        r.0.staking_token_address@ == msg.staking_token_address@,
        r.0.period == (LockPrd { long: msg.long_period, short: msg.short_period }),
        r.0.tax.long.atomics == msg.long_tax as int * (DECIMAL_FRACTIONAL as int / 100),
        r.0.tax.short.atomics == msg.short_tax as int * (DECIMAL_FRACTIONAL as int / 100),
        r.0.penalty.atomics == msg.penalty as int * (DECIMAL_FRACTIONAL as int / 100),
        r.1 == (Supply { issued: 0, locked: 0, fees: 0 }),
        r.2.wf(),
        r.2.positions@.len() == 0,
        conserved(r.1, r.2),
{
    let cfg = StakingInfo {
        owner: sender.clone(),
        stake_denom: msg.stake_denom.clone(),
        staking_token_address: msg.staking_token_address.clone(),
        period: LockPrd { long: msg.long_period, short: msg.short_period },
        tax: LockTax {
            long: Decimal18::percent(msg.long_tax),
            short: Decimal18::percent(msg.short_tax),
        },
        penalty: Decimal18::percent(msg.penalty),
    };
    let supply = Supply::default();
    let store = PositionStore::new();
    (cfg, supply, store)
}

/// Books a deposit: withholds the duration class's tax from issuance,
/// stores a new position over the full deposit, adds the deposit to the
/// locked total, and reports how many derivative tokens to mint. Only the
/// configured token contract may notify a deposit; a position id collision
/// is rejected; every failure leaves the ledger and the store unchanged.
pub fn lock(
    cfg: &StakingInfo,
    supply: &mut Supply,
    store: &mut PositionStore,
    caller: &String,
    sender: &String,
    idx: &String,
    lock_amount: u128,
    lock_type: LockType,
    now: u64,
) -> (r: Result<u128, ContractError>)
    requires
        cfg.wf(),
        old(store).wf(),
        conserved(*old(supply), *old(store)),
    ensures
        final(store).wf(),
        conserved(*final(supply), *final(store)),
        // fees are only ever collected, never spent
        old(supply).fees <= final(supply).fees,
        r.is_err() ==> *final(supply) == *old(supply) && *final(store) == *old(store),
        caller@ != cfg.staking_token_address@ ==> r == Err::<u128, ContractError>(
            ContractError::Unauthorized,
        ),
        caller@ == cfg.staking_token_address@ && lock_amount == 0 ==> r == Err::<
            u128,
            ContractError,
        >(ContractError::ZeroAmount),
        caller@ == cfg.staking_token_address@ && lock_amount > 0 && old(store).has_id(idx@)
            ==> r == Err::<u128, ContractError>(ContractError::DuplicateIdentifier),
        caller@ == cfg.staking_token_address@ && lock_amount > 0 && !old(store).has_id(idx@)
            && lock_would_overflow(*cfg, *old(supply), lock_amount, lock_type) ==> r == Err::<
            u128,
            ContractError,
        >(ContractError::Overflow),
        caller@ == cfg.staking_token_address@ && lock_amount > 0 && !old(store).has_id(idx@)
            && !lock_would_overflow(*cfg, *old(supply), lock_amount, lock_type) ==> ({
            let tax = spec_lock_tax(*cfg, lock_type, lock_amount);
            let minted = lock_amount - tax;
            &&& r == Ok::<u128, ContractError>(minted as u128)
            &&& final(supply).locked == old(supply).locked + lock_amount
            &&& final(supply).issued == old(supply).issued + minted
            &&& final(supply).fees == old(supply).fees + tax
            &&& final(store).positions@.len() == old(store).positions@.len() + 1
            &&& final(store).positions@ == old(store).positions@.push(
                final(store).positions@.last(),
            )
            &&& ({
                let p = final(store).positions@.last();
                &&& p.idx@ == idx@
                &&& p.owner@ == sender@
                &&& p.date == now
                &&& p.amount == lock_amount
                &&& p.period == spec_period(*cfg, lock_type)
            })
            &&& final(store).has_id(idx@)
        }),
{
    if !(*caller == cfg.staking_token_address) {
        return Err(ContractError::Unauthorized);
    }
    if lock_amount == 0 {
        return Err(ContractError::ZeroAmount);
    }
    if store.get(idx).is_some() {
        return Err(ContractError::DuplicateIdentifier);
    }
    let rate = match lock_type {
        LockType::Long {  } => cfg.tax.long,
        LockType::Short {  } => cfg.tax.short,
    };
    let tax = mul_floor_rate(lock_amount, rate);
    let to_mint = lock_amount - tax;
    if lock_amount > u128::MAX - supply.locked || to_mint > u128::MAX - supply.issued || tax
        > u128::MAX - supply.fees {
        return Err(ContractError::Overflow);
    }
    let position = UserStakingInfo {
        idx: idx.clone(),
        owner: sender.clone(),
        date: now,
        amount: lock_amount,
        period: match lock_type {
            LockType::Long {  } => cfg.period.long,
            LockType::Short {  } => cfg.period.short,
        },
    };
    let ghost pushed = position;
    let ghost old_positions = store.positions@;
    match store.insert(position) {
        Ok(_) => {},
        Err(_) => {
            proof {
                assert(false);
            }
            return Err(ContractError::DuplicateIdentifier);
        },
    }
    supply.locked = supply.locked + lock_amount;
    supply.issued = supply.issued + to_mint;
    supply.fees = supply.fees + tax;
    proof {
        lemma_sum_push(old_positions, pushed);
        assert(store.positions@.last() == pushed);
    }
    Ok(to_mint)
}

/// Books a withdrawal: charges the early-exit penalty on the released slice
/// when the position has not matured, burns the released amount from
/// issuance, takes the released amount out of the locked total, and deletes
/// the position or decreases it in place. Only the position's owner may
/// unlock; every failure leaves the ledger and the store unchanged. Returns
/// the net amount to pay out and the penalty withheld.
pub fn unlock(
    cfg: &StakingInfo,
    supply: &mut Supply,
    store: &mut PositionStore,
    caller: &String,
    idx: &String,
    amount: u128,
    now: u64,
) -> (r: Result<(u128, u128), ContractError>)
    requires
        cfg.wf(),
        old(store).wf(),
        conserved(*old(supply), *old(store)),
    ensures
        final(store).wf(),
        conserved(*final(supply), *final(store)),
        // fees are only ever collected, never spent
        old(supply).fees <= final(supply).fees,
        r.is_err() ==> *final(supply) == *old(supply) && *final(store) == *old(store),
        amount == 0 ==> r == Err::<(u128, u128), ContractError>(ContractError::ZeroAmount),
        amount > 0 && !old(store).has_id(idx@) ==> r == Err::<(u128, u128), ContractError>(
            ContractError::NotFound,
        ),
        amount > 0 && old(store).has_id(idx@) && caller@ != old(store).spec_get(idx@).owner@
            ==> r == Err::<(u128, u128), ContractError>(ContractError::Unauthorized),
        amount > 0 && old(store).has_id(idx@) && caller@ == old(store).spec_get(idx@).owner@
            && amount > old(store).spec_get(idx@).amount ==> r == Err::<
            (u128, u128),
            ContractError,
        >(ContractError::InsufficientBalance),
        amount > 0 && old(store).has_id(idx@) && caller@ == old(store).spec_get(idx@).owner@
            && amount <= old(store).spec_get(idx@).amount && old(supply).issued < amount ==> r
            == Err::<(u128, u128), ContractError>(ContractError::Underflow),
        amount > 0 && old(store).has_id(idx@) && caller@ == old(store).spec_get(idx@).owner@
            && amount <= old(store).spec_get(idx@).amount && old(supply).issued >= amount
            && old(supply).fees + spec_penalty(*cfg, old(store).spec_get(idx@), amount, now)
            > u128::MAX ==> r == Err::<(u128, u128), ContractError>(ContractError::Overflow),
        amount > 0 && old(store).has_id(idx@) && caller@ == old(store).spec_get(idx@).owner@
            && amount <= old(store).spec_get(idx@).amount && old(supply).issued >= amount
            && old(supply).fees + spec_penalty(*cfg, old(store).spec_get(idx@), amount, now)
            <= u128::MAX ==> ({
            let pos = old(store).spec_get(idx@);
            let penalty = spec_penalty(*cfg, pos, amount, now);
            let net = amount - penalty;
            &&& r == Ok::<(u128, u128), ContractError>((net as u128, penalty as u128))
            &&& final(supply).locked == old(supply).locked - amount
            &&& final(supply).issued == old(supply).issued - amount
            &&& final(supply).fees == old(supply).fees + penalty
            &&& (amount == pos.amount ==> final(store).positions@ == old(
                store,
            ).positions@.remove(old(store).id_index(idx@)) && !final(store).has_id(idx@))
            &&& (amount < pos.amount ==> ({
                let i = old(store).id_index(idx@);
                let p1 = final(store).positions@[i];
                &&& final(store).positions@ == old(store).positions@.update(i, p1)
                &&& p1.idx@ == pos.idx@
                &&& p1.owner@ == pos.owner@
                &&& p1.date == pos.date
                &&& p1.period == pos.period
                &&& p1.amount == pos.amount - amount
                &&& final(store).has_id(idx@)
            }))
        }),
{
    if amount == 0 {
        return Err(ContractError::ZeroAmount);
    }
    let pos_amount: u128;
    let pos_date: u64;
    let pos_period: u64;
    let owner_ok: bool;
    match store.get(idx) {
        None => {
            return Err(ContractError::NotFound);
        },
        Some(p) => {
            pos_amount = p.amount;
            pos_date = p.date;
            pos_period = p.period;
            owner_ok = p.owner == *caller;
        },
    }
    if !owner_ok {
        return Err(ContractError::Unauthorized);
    }
    if amount > pos_amount {
        return Err(ContractError::InsufficientBalance);
    }
    let not_matured: bool = (now as u128) < (pos_date as u128) + (pos_period as u128);
    let penalty: u128 = if not_matured {
        mul_floor_rate(amount, cfg.penalty)
    } else {
        0
    };
    let net: u128 = amount - penalty;
    if supply.issued < amount {
        return Err(ContractError::Underflow);
    }
    if penalty > u128::MAX - supply.fees {
        return Err(ContractError::Overflow);
    }
    proof {
        // the locked total covers the full release: one position's
        // outstanding amount is bounded by the sum of all of them
        store.lemma_id_index_is(idx@, store.id_index(idx@));
        lemma_sum_element_le(store.positions@, store.id_index(idx@));
    }
    supply.locked = supply.locked - amount;
    supply.issued = supply.issued - amount;
    supply.fees = supply.fees + penalty;
    let ghost old_positions = store.positions@;
    let ghost gi = store.id_index(idx@);
    if amount == pos_amount {
        match store.remove(idx) {
            Ok(_) => {},
            Err(_) => {
                proof {
                    assert(false);
                }
                return Err(ContractError::NotFound);
            },
        }
        proof {
            lemma_sum_remove(old_positions, gi);
        }
    } else {
        match store.decrease(idx, amount) {
            Ok(_) => {},
            Err(_) => {
                proof {
                    assert(false);
                }
                return Err(ContractError::NotFound);
            },
        }
        proof {
            lemma_sum_update(old_positions, gi, store.positions@[gi]);
        }
    }
    Ok((net, penalty))
}

/// The aggregate view: configuration, current totals, and the nominal value
/// of one derivative token (locked over issued; one when nothing is issued).
pub fn query_investment(cfg: &StakingInfo, supply: &Supply) -> (r: InvestmentResponse)
    requires
        supply.issued > 0 ==> (supply.locked as int * DECIMAL_FRACTIONAL as int) / (
        supply.issued as int) <= u128::MAX,
    ensures
        r.owner@ == cfg.owner@,
        r.penalty == cfg.penalty,
        r.tax == cfg.tax,
        r.period == cfg.period,
        r.token_supply == supply.issued,
        r.staked_tokens.denom@ == cfg.stake_denom@,
        r.staked_tokens.amount == supply.locked,
        supply.issued == 0 ==> r.nominal_value.atomics == DECIMAL_FRACTIONAL,
        supply.issued > 0 ==> r.nominal_value.atomics as int == (supply.locked as int
            * DECIMAL_FRACTIONAL as int) / (supply.issued as int),
{
    let nominal_value = if supply.issued == 0 {
        Decimal18::one()
    } else {
        Decimal18 { atomics: mul_ratio_floor(supply.locked, DECIMAL_FRACTIONAL, supply.issued) }
    };
    InvestmentResponse {
        token_supply: supply.issued,
        staked_tokens: Coin { denom: cfg.stake_denom.clone(), amount: supply.locked },
        nominal_value,
        owner: cfg.owner.clone(),
        penalty: cfg.penalty,
        tax: cfg.tax,
        period: cfg.period,
    }
}

/// The per-owner view: all open positions of `owner`, in insertion order.
pub fn query_user_staking(store: &PositionStore, owner: &String) -> (r: UserStakingInfoResponse)
    requires
        store.wf(),
    ensures
        r.infos@ == store.positions_of(owner@),
{
    UserStakingInfoResponse { infos: store.list_by_owner(owner) }
}

} // verus!
