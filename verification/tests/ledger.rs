use xqtum::contract;
use xqtum::error::ContractError;
use xqtum::fixed::{Decimal18, DECIMAL_FRACTIONAL};
use xqtum::msg::{InstantiateMsg, LockType};
use xqtum::state::{staking_owner_idx, LockPrd, LockTax, PositionStore, StakingInfo, Supply, UserStakingInfo};

const NOW: u64 = 1_571_797_419;

fn default_instantiate() -> InstantiateMsg {
    InstantiateMsg {
        name: "xQtum".to_string(),
        symbol: "xQtum".to_string(),
        decimals: 6,
        long_period: 30 * 14400,
        short_period: 15 * 14400,
        long_tax: 2,
        short_tax: 3,
        penalty: 2,
        stake_denom: "qtum".to_string(),
        staking_token_address: "qtum".to_string(),
    }
}

fn setup(creator: &str) -> (StakingInfo, Supply, PositionStore) {
    let sender = creator.to_string();
    contract::instantiate(&default_instantiate(), &sender)
}

#[test]
fn proper_instantiation() {
    let creator = String::from("creator");
    let msg = default_instantiate();
    let (cfg, supply, store) = contract::instantiate(&msg, &creator);

    assert_eq!(cfg.owner, "creator".to_string());
    assert_eq!(cfg.stake_denom, "qtum".to_string());
    assert_eq!(cfg.staking_token_address, "qtum".to_string());
    assert_eq!(cfg.period, LockPrd { long: 30 * 14400, short: 15 * 14400 });
    assert_eq!(
        cfg.tax,
        LockTax { long: Decimal18::percent(2), short: Decimal18::percent(3) }
    );
    assert_eq!(cfg.penalty, Decimal18::percent(2));
    assert_eq!(supply, Supply { issued: 0, locked: 0, fees: 0 });
    assert_eq!(store.positions.len(), 0);

    let investment = contract::query_investment(&cfg, &supply);
    assert_eq!(&investment.owner, &creator);
    assert_eq!(investment.staked_tokens.denom, "qtum".to_string());
    assert_eq!(investment.staked_tokens.amount, 0u128);
    assert_eq!(
        investment.tax,
        LockTax { long: Decimal18::percent(msg.long_tax), short: Decimal18::percent(msg.short_tax) }
    );
    assert_eq!(investment.token_supply, 0u128);
}

#[test]
fn lock() {
    let (cfg, mut supply, mut store) = setup("addr0000");
    let token = "qtum".to_string();

    let r = contract::lock(
        &cfg,
        &mut supply,
        &mut store,
        &token,
        &"addr0000".to_string(),
        &"1".to_string(),
        100,
        LockType::Long {},
        NOW,
    );
    assert!(r.is_ok());

    let r = contract::lock(
        &cfg,
        &mut supply,
        &mut store,
        &token,
        &"addr0000".to_string(),
        &"2".to_string(),
        100,
        LockType::Short {},
        NOW,
    );
    assert!(r.is_ok());

    let r = contract::lock(
        &cfg,
        &mut supply,
        &mut store,
        &token,
        &"addr1111".to_string(),
        &"3".to_string(),
        100,
        LockType::Short {},
        NOW,
    );
    assert!(r.is_ok());

    assert_eq!(supply.issued, 292u128);

    let user_staking = contract::query_user_staking(&store, &"addr0000".to_string());
    assert_eq!(user_staking.infos.len(), 2);

    let r = contract::unlock(
        &cfg,
        &mut supply,
        &mut store,
        &"addr0000".to_string(),
        &"1".to_string(),
        100,
        NOW,
    );
    assert!(r.is_ok());

    let user_staking = contract::query_user_staking(&store, &"addr0000".to_string());
    assert_eq!(supply.issued, 192u128);
    assert_eq!(user_staking.infos.len(), 1);
}

#[test]
fn example_sequence_two_locks_then_early_full_unlock() {
    let (cfg, mut supply, mut store) = setup("creator");
    let token = "qtum".to_string();
    let holder = "addr0000".to_string();

    let minted = contract::lock(
        &cfg,
        &mut supply,
        &mut store,
        &token,
        &holder,
        &"first".to_string(),
        100,
        LockType::Long {},
        NOW,
    )
    .unwrap();
    assert_eq!(minted, 98u128);
    assert_eq!(supply.locked, 100u128);
    assert_eq!(supply.issued, 98u128);
    assert_eq!(supply.fees, 2u128);

    let minted = contract::lock(
        &cfg,
        &mut supply,
        &mut store,
        &token,
        &holder,
        &"second".to_string(),
        100,
        LockType::Short {},
        NOW,
    )
    .unwrap();
    assert_eq!(minted, 97u128);
    assert_eq!(supply.locked, 200u128);
    assert_eq!(supply.issued, 195u128);
    assert_eq!(supply.fees, 5u128);

    // unlock the first position's full 100 before maturity: penalty 2
    let (net, penalty) = contract::unlock(
        &cfg,
        &mut supply,
        &mut store,
        &holder,
        &"first".to_string(),
        100,
        NOW + 10,
    )
    .unwrap();
    assert_eq!(net, 98u128);
    assert_eq!(penalty, 2u128);
    assert_eq!(supply.locked, 100u128);
    assert_eq!(supply.issued, 95u128);
    assert_eq!(supply.fees, 7u128);
    assert!(store.get(&"first".to_string()).is_none());
    let remaining = contract::query_user_staking(&store, &holder);
    assert_eq!(remaining.infos.len(), 1);
    assert_eq!(remaining.infos[0].idx, "second".to_string());
}

#[test]
fn issuance_tax_is_floored() {
    let (cfg, mut supply, mut store) = setup("creator");
    let token = "qtum".to_string();
    let holder = "addr0000".to_string();

    // floor(99 * 3%) = 2, so 97 are minted
    let minted = contract::lock(
        &cfg,
        &mut supply,
        &mut store,
        &token,
        &holder,
        &"a".to_string(),
        99,
        LockType::Short {},
        NOW,
    )
    .unwrap();
    assert_eq!(minted, 97u128);
    assert_eq!(supply.fees, 2u128);

    // a deposit too small to be taxed mints in full
    let minted = contract::lock(
        &cfg,
        &mut supply,
        &mut store,
        &token,
        &holder,
        &"b".to_string(),
        33,
        LockType::Long {},
        NOW,
    )
    .unwrap();
    assert_eq!(minted, 33u128);
    assert_eq!(supply.fees, 2u128);
    assert_eq!(supply.locked, 132u128);
    assert_eq!(supply.issued, 130u128);
}

#[test]
fn penalty_applies_only_before_maturity() {
    let (cfg, mut supply, mut store) = setup("creator");
    let token = "qtum".to_string();
    let holder = "addr0000".to_string();

    contract::lock(
        &cfg,
        &mut supply,
        &mut store,
        &token,
        &holder,
        &"p".to_string(),
        1000,
        LockType::Long {},
        NOW,
    )
    .unwrap();

    // before maturity: penalty = floor(50 * 2%) = 1
    let (net, penalty) = contract::unlock(&cfg, &mut supply, &mut store, &holder, &"p".to_string(), 50, NOW)
        .unwrap();
    assert_eq!((net, penalty), (49u128, 1u128));
    let fees_after_early = supply.fees;

    // at maturity: no penalty
    let mature = NOW + 30 * 14400;
    let (net, penalty) =
        contract::unlock(&cfg, &mut supply, &mut store, &holder, &"p".to_string(), 50, mature).unwrap();
    assert_eq!((net, penalty), (50u128, 0u128));
    assert_eq!(supply.fees, fees_after_early);
}

#[test]
fn duplicate_identifier_rejected() {
    let (cfg, mut supply, mut store) = setup("creator");
    let token = "qtum".to_string();

    contract::lock(
        &cfg,
        &mut supply,
        &mut store,
        &token,
        &"addr0000".to_string(),
        &"dup".to_string(),
        100,
        LockType::Long {},
        NOW,
    )
    .unwrap();
    let supply_before = supply;

    let r = contract::lock(
        &cfg,
        &mut supply,
        &mut store,
        &token,
        &"addr1111".to_string(),
        &"dup".to_string(),
        55,
        LockType::Short {},
        NOW + 5,
    );
    assert_eq!(r, Err(ContractError::DuplicateIdentifier));
    assert_eq!(supply, supply_before);

    // the first position is untouched
    let p = store.get(&"dup".to_string()).unwrap();
    assert_eq!(p.owner, "addr0000".to_string());
    assert_eq!(p.amount, 100u128);
    assert_eq!(p.date, NOW);
}

#[test]
fn deposit_from_untrusted_token_rejected() {
    let (cfg, mut supply, mut store) = setup("creator");

    let r = contract::lock(
        &cfg,
        &mut supply,
        &mut store,
        &"not-qtum".to_string(),
        &"addr0000".to_string(),
        &"x".to_string(),
        100,
        LockType::Long {},
        NOW,
    );
    assert_eq!(r, Err(ContractError::Unauthorized));
    assert_eq!(supply, Supply { issued: 0, locked: 0, fees: 0 });
    assert_eq!(store.positions.len(), 0);
}

#[test]
fn unlock_by_non_owner_unauthorized() {
    let (cfg, mut supply, mut store) = setup("creator");
    let token = "qtum".to_string();

    contract::lock(
        &cfg,
        &mut supply,
        &mut store,
        &token,
        &"addr0000".to_string(),
        &"mine".to_string(),
        100,
        LockType::Long {},
        NOW,
    )
    .unwrap();
    let supply_before = supply;

    let r = contract::unlock(
        &cfg,
        &mut supply,
        &mut store,
        &"addr1111".to_string(),
        &"mine".to_string(),
        10,
        NOW,
    );
    assert_eq!(r, Err(ContractError::Unauthorized));
    assert_eq!(supply, supply_before);
    let p = store.get(&"mine".to_string()).unwrap();
    assert_eq!(p.amount, 100u128);
}

#[test]
fn full_vs_partial_unlock() {
    // zero tax, so the issued total covers unlocking the whole principal
    let msg = InstantiateMsg { long_tax: 0, short_tax: 0, ..default_instantiate() };
    let (cfg, mut supply, mut store) = contract::instantiate(&msg, &"creator".to_string());
    let token = "qtum".to_string();
    let holder = "addr0000".to_string();

    contract::lock(
        &cfg,
        &mut supply,
        &mut store,
        &token,
        &holder,
        &"pos".to_string(),
        100,
        LockType::Long {},
        NOW,
    )
    .unwrap();

    // a partial unlock leaves the position with a reduced amount and an
    // unchanged clock
    contract::unlock(&cfg, &mut supply, &mut store, &holder, &"pos".to_string(), 40, NOW).unwrap();
    let p = store.get(&"pos".to_string()).unwrap();
    assert_eq!(p.amount, 60u128);
    assert_eq!(p.date, NOW);
    assert_eq!(p.period, 30 * 14400);
    assert_eq!(p.owner, holder);
    assert_eq!(contract::query_user_staking(&store, &holder).infos.len(), 1);

    // the full remainder deletes the position and its index entry
    contract::unlock(&cfg, &mut supply, &mut store, &holder, &"pos".to_string(), 60, NOW).unwrap();
    assert!(store.get(&"pos".to_string()).is_none());
    assert_eq!(contract::query_user_staking(&store, &holder).infos.len(), 0);
    assert_eq!(supply.locked, 0u128);
}

#[test]
fn zero_amounts_rejected() {
    let (cfg, mut supply, mut store) = setup("creator");
    let token = "qtum".to_string();
    let holder = "addr0000".to_string();

    let r = contract::lock(
        &cfg,
        &mut supply,
        &mut store,
        &token,
        &holder,
        &"z".to_string(),
        0,
        LockType::Long {},
        NOW,
    );
    assert_eq!(r, Err(ContractError::ZeroAmount));

    contract::lock(&cfg, &mut supply, &mut store, &token, &holder, &"z".to_string(), 10, LockType::Long {}, NOW)
        .unwrap();
    let r = contract::unlock(&cfg, &mut supply, &mut store, &holder, &"z".to_string(), 0, NOW);
    assert_eq!(r, Err(ContractError::ZeroAmount));
}

#[test]
fn unknown_id_and_excessive_amount_rejected() {
    let (cfg, mut supply, mut store) = setup("creator");
    let token = "qtum".to_string();
    let holder = "addr0000".to_string();

    let r = contract::unlock(&cfg, &mut supply, &mut store, &holder, &"ghostly".to_string(), 10, NOW);
    assert_eq!(r, Err(ContractError::NotFound));

    contract::lock(&cfg, &mut supply, &mut store, &token, &holder, &"small".to_string(), 30, LockType::Long {}, NOW)
        .unwrap();
    let supply_before = supply;
    let r = contract::unlock(&cfg, &mut supply, &mut store, &holder, &"small".to_string(), 31, NOW);
    assert_eq!(r, Err(ContractError::InsufficientBalance));
    assert_eq!(supply, supply_before);
}

#[test]
fn issued_underflow_detected() {
    let (cfg, mut supply, mut store) = setup("creator");
    let token = "qtum".to_string();
    let holder = "addr0000".to_string();

    // one lock of 100 at 2% tax issues only 98 derivative tokens, so burning
    // 100 would take the issued total below zero
    contract::lock(&cfg, &mut supply, &mut store, &token, &holder, &"u".to_string(), 100, LockType::Long {}, NOW)
        .unwrap();
    let supply_before = supply;
    let r = contract::unlock(&cfg, &mut supply, &mut store, &holder, &"u".to_string(), 100, NOW);
    assert_eq!(r, Err(ContractError::Underflow));
    assert_eq!(supply, supply_before);
    assert_eq!(store.get(&"u".to_string()).unwrap().amount, 100u128);
}

#[test]
fn locked_overflow_detected() {
    let msg = InstantiateMsg {
        long_tax: 0,
        short_tax: 0,
        penalty: 0,
        ..default_instantiate()
    };
    let (cfg, mut supply, mut store) = contract::instantiate(&msg, &"creator".to_string());
    let token = "qtum".to_string();
    let holder = "addr0000".to_string();

    let minted = contract::lock(
        &cfg,
        &mut supply,
        &mut store,
        &token,
        &holder,
        &"max".to_string(),
        u128::MAX,
        LockType::Long {},
        NOW,
    )
    .unwrap();
    assert_eq!(minted, u128::MAX);
    assert_eq!(supply.locked, u128::MAX);

    let supply_before = supply;
    let r = contract::lock(
        &cfg,
        &mut supply,
        &mut store,
        &token,
        &holder,
        &"one-more".to_string(),
        1,
        LockType::Long {},
        NOW,
    );
    assert_eq!(r, Err(ContractError::Overflow));
    assert_eq!(supply, supply_before);
    assert_eq!(store.positions.len(), 1);
}

#[test]
fn conservation_across_a_mixed_sequence() {
    let (cfg, mut supply, mut store) = setup("creator");
    let token = "qtum".to_string();
    let a = "addr0000".to_string();
    let b = "addr1111".to_string();

    contract::lock(&cfg, &mut supply, &mut store, &token, &a, &"1".to_string(), 500, LockType::Long {}, NOW)
        .unwrap();
    contract::lock(&cfg, &mut supply, &mut store, &token, &b, &"2".to_string(), 300, LockType::Short {}, NOW)
        .unwrap();
    contract::unlock(&cfg, &mut supply, &mut store, &a, &"1".to_string(), 200, NOW).unwrap();
    contract::lock(&cfg, &mut supply, &mut store, &token, &a, &"3".to_string(), 50, LockType::Short {}, NOW)
        .unwrap();
    contract::unlock(&cfg, &mut supply, &mut store, &b, &"2".to_string(), 300, NOW + 15 * 14400).unwrap();

    let total: u128 = store.positions.iter().map(|p| p.amount).sum();
    assert_eq!(supply.locked, total);
    assert_eq!(supply.locked, 350u128);
}

#[test]
fn nominal_value_is_exact() {
    let (cfg, mut supply, mut store) = setup("creator");
    let token = "qtum".to_string();
    let holder = "addr0000".to_string();

    // an empty ledger reports the fallback ratio of one
    let investment = contract::query_investment(&cfg, &supply);
    assert_eq!(investment.nominal_value, Decimal18 { atomics: DECIMAL_FRACTIONAL });

    contract::lock(&cfg, &mut supply, &mut store, &token, &holder, &"1".to_string(), 100, LockType::Long {}, NOW)
        .unwrap();
    contract::lock(&cfg, &mut supply, &mut store, &token, &holder, &"2".to_string(), 100, LockType::Short {}, NOW)
        .unwrap();

    // locked 200 over issued 195, floored at eighteen fractional digits
    let investment = contract::query_investment(&cfg, &supply);
    assert_eq!(investment.token_supply, 195u128);
    assert_eq!(investment.staked_tokens.amount, 200u128);
    assert_eq!(investment.staked_tokens.denom, "qtum".to_string());
    assert_eq!(
        investment.nominal_value,
        Decimal18 { atomics: 1_025_641_025_641_025_641u128 }
    );
}

#[test]
fn owner_index_keeps_insertion_order() {
    let (cfg, mut supply, mut store) = setup("creator");
    let token = "qtum".to_string();
    let a = "addr0000".to_string();
    let b = "addr1111".to_string();

    contract::lock(&cfg, &mut supply, &mut store, &token, &a, &"a1".to_string(), 10, LockType::Long {}, NOW)
        .unwrap();
    contract::lock(&cfg, &mut supply, &mut store, &token, &b, &"b1".to_string(), 20, LockType::Long {}, NOW)
        .unwrap();
    contract::lock(&cfg, &mut supply, &mut store, &token, &a, &"a2".to_string(), 30, LockType::Short {}, NOW)
        .unwrap();

    let infos = contract::query_user_staking(&store, &a).infos;
    assert_eq!(infos.len(), 2);
    assert_eq!(infos[0].idx, "a1".to_string());
    assert_eq!(infos[0].amount, 10u128);
    assert_eq!(infos[1].idx, "a2".to_string());
    assert_eq!(infos[1].amount, 30u128);

    let infos = contract::query_user_staking(&store, &"addr2222".to_string()).infos;
    assert_eq!(infos.len(), 0);
}

#[test]
fn owner_key_and_defaults() {
    let p = UserStakingInfo {
        idx: "k".to_string(),
        owner: "addr0000".to_string(),
        date: NOW,
        amount: 5,
        period: 60,
    };
    assert_eq!(staking_owner_idx(&[0u8, 1u8], &p), "addr0000".to_string());
    assert_eq!(Supply::default(), Supply { issued: 0, locked: 0, fees: 0 });
    assert_eq!(Decimal18::percent(50).atomics, 500_000_000_000_000_000u128);
    assert_eq!(Decimal18::one().atomics, DECIMAL_FRACTIONAL);
}

#[test]
fn maturity_boundary() {
    let (cfg, mut supply, mut store) = setup("creator");
    let token = "qtum".to_string();
    let holder = "addr0000".to_string();
    let period: u64 = 30 * 14400;

    contract::lock(&cfg, &mut supply, &mut store, &token, &holder, &"m".to_string(), 400, LockType::Long {}, NOW)
        .unwrap();

    // one second before maturity the penalty still applies
    let (net, penalty) =
        contract::unlock(&cfg, &mut supply, &mut store, &holder, &"m".to_string(), 100, NOW + period - 1)
            .unwrap();
    assert_eq!((net, penalty), (98u128, 2u128));

    // at the exact maturity instant it no longer does
    let (net, penalty) =
        contract::unlock(&cfg, &mut supply, &mut store, &holder, &"m".to_string(), 100, NOW + period)
            .unwrap();
    assert_eq!((net, penalty), (100u128, 0u128));
}
