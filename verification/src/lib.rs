//! Verified core logic of a token-sale launchpad: fixed-price and price-discovery sale
//! mechanics, discount phases, vesting, claims, withdrawals and the launchpad status machine.

pub mod account_map;
pub mod contract;
pub mod discount;
pub mod factory;
pub mod mechanics;
pub mod storage_key;
pub mod types;
pub mod utils;
pub mod wide;
