//! Discount phases: their parameters, their per-phase sale state, and how a deposit is split
//! between the phases, the public sale and a refund.

pub mod distribution;
pub mod ledger;
pub mod params;
pub mod state;
