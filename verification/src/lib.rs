//! A deterministic lock/unlock ledger: holders of a base asset lock it for a
//! chosen duration class in exchange for a derivative token, and later redeem
//! the derivative token to reclaim the base asset, subject to a lock-time tax
//! and an early-exit penalty. The ledger keeps its three running totals
//! (locked, issued, fees) in exact agreement with the set of outstanding
//! positions.

pub mod error;
pub mod fixed;
pub mod state;
pub mod msg;
pub mod contract;
