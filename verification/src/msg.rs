use vstd::prelude::*;

use crate::state::{LockPrd, LockTax, UserStakingInfo};
use crate::fixed::Decimal18;

verus! {

/// Metadata of the derivative token.
pub struct InitMsg {
    /// Name of the derivative token.
    pub name: String,
    /// Symbol / ticker of the derivative token.
    pub symbol: String,
    /// Decimal places of the derivative token (for UI).
    pub decimals: u8,
    /// Denomination of the locked base asset.
    pub stake_denom: String,
}

/// Everything the ledger is created with.
pub struct InstantiateMsg {
    /// Name of the derivative token.
    pub name: String,
    /// Symbol / ticker of the derivative token.
    pub symbol: String,
    /// Decimal places of the derivative token (for UI).
    pub decimals: u8,
    /// Denomination of the locked base asset.
    pub stake_denom: String,
    /// The trusted token contract whose deposit notifications are accepted.
    pub staking_token_address: String,
    /// Long lock period, in seconds.
    pub long_period: u64,
    /// Short lock period, in seconds.
    pub short_period: u64,
    /// Lock-time tax for the long duration class, in percent.
    pub long_tax: u64,
    /// Lock-time tax for the short duration class, in percent.
    pub short_tax: u64,
    /// Early-exit penalty, in percent.
    pub penalty: u64,
}

/// The read-only projections the ledger answers.
pub enum QueryMsg {
    /// Metadata and the current running totals of the ledger.
    Investment {},
    /// The current derivative-token balance of the given address.
    Balance { address: String },
    /// Metadata of the derivative token.
    TokenInfo {},
    /// How much a spender may use from an owner's account.
    Allowance { owner: String, spender: String },
    /// All open positions of the given owner.
    StakingInfo { owner: String },
}

/// An amount of a named asset.
pub struct Coin {
    pub denom: String,
    pub amount: u128,
}

/// The aggregate view: configuration plus the current totals.
pub struct InvestmentResponse {
    /// How many derivative tokens are outstanding.
    pub token_supply: u128,
    /// How much base asset is locked.
    pub staked_tokens: Coin,
    /// Ratio of staked tokens to token supply: how much base asset one
    /// derivative token is nominally worth. One when nothing is issued.
    pub nominal_value: Decimal18,
    /// Address that created the contract.
    pub owner: String,
    /// The early-exit penalty rate.
    pub penalty: Decimal18,
    /// The lock-time tax rates.
    pub tax: LockTax,
    /// The two lock-period lengths.
    pub period: LockPrd,
}

/// The per-owner view: all open positions of one address.
pub struct UserStakingInfoResponse {
    pub infos: Vec<UserStakingInfo>,
}

/// The duration class a depositor chooses at lock time.
#[derive(Clone, Copy, Debug, PartialEq, Eq, Structural)]
pub enum LockType {
    Long {},
    Short {},
}

/// The payload a deposit notification carries.
pub enum Cw20HookMsg {
    Lock { idx: String, lock_type: LockType },
}

} // verus!
